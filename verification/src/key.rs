//! Keys, key classes and the lookup discriminant.
//!
//! An [`AvKey`] is one position of a key combination: either a fixed
//! physical key (by keycode) or a whole class of related keys (a key
//! parameter such as "any digit key"). The catalog of key classes is the
//! closed enum [`AvKeyParameter`]; each class owns an ordered membership
//! sequence of keycodes and an ordinal function over exactly that set.

use vstd::prelude::*;
use vstd::string::*;

use crate::text::str_eq;

verus! {

/// Numeric identity of a physical key, stable across a session.
/// The numbering is drawn from a platform-defined keycode table.
pub type KeyCode = u32;

/// One keyboard key position in a key combination.
#[derive(Debug, Clone, Copy)]
pub enum AvKey {
    /// A fixed physical key, named by its platform keycode.
    Key(KeyCode),
    /// A whole class of related keys, so that one declaration can serve a
    /// family of combinations. See [`AvKeyParameter`].
    Parameter(AvKeyParameter),
}

/// A parameterized key class: a closed, ordered family of keycodes, each
/// carrying an ordinal value that the bound callback receives.
#[derive(Debug, Clone, Copy, PartialEq, Eq, Hash, Structural)]
pub enum AvKeyParameter {
    /// Any digit key `0`..=`9` (not the keypad); written `{d}` in an
    /// expression. The ordinal is the visible digit value, `0`-indexed.
    DigitKey,
    /// Any function key `F1`..=`F12`; written `{f}` in an expression.
    /// The ordinal is `1`-indexed to match the key labels.
    FunctionKey,
}

impl AvKeyParameter {
    /// The ordered membership of this key class. Order is semantically
    /// significant: it defines each member's ordinal position.
    pub open spec fn members(self) -> Seq<KeyCode> {
        match self {
            AvKeyParameter::DigitKey => seq![
                11u32, 2u32, 3u32, 4u32, 5u32, 6u32, 7u32, 8u32, 9u32, 10u32,
            ],
            AvKeyParameter::FunctionKey => seq![
                59u32, 60u32, 61u32, 62u32, 63u32, 64u32, 65u32, 66u32, 67u32, 68u32, 87u32, 88u32,
            ],
        }
    }

    /// Ordinals are shifted by this amount relative to membership position:
    /// digits read `0`-indexed, function keys `1`-indexed.
    pub open spec fn ordinal_base(self) -> int {
        match self {
            AvKeyParameter::DigitKey => 0,
            AvKeyParameter::FunctionKey => 1,
        }
    }

    /// The ordinal value this class assigns to a keycode: its position in
    /// [`Self::members`] plus [`Self::ordinal_base`], defined exactly on the
    /// members and nowhere else.
    pub open spec fn ordinal(self, key: KeyCode) -> Option<usize> {
        if self.members().contains(key) {
            Some((self.members().index_of(key) + self.ordinal_base()) as usize)
        } else {
            None
        }
    }

    /// No keycode occurs twice in a class's membership.
    pub proof fn lemma_members_distinct(self)
        ensures
            self.members().no_duplicates(),
    {
        assert(self.members().no_duplicates()) by {
            match self {
                AvKeyParameter::DigitKey => {
                    assert forall|i: int, j: int|
                        0 <= i < self.members().len() && 0 <= j < self.members().len() && i != j
                        implies self.members()[i] != self.members()[j] by {}
                },
                AvKeyParameter::FunctionKey => {
                    assert forall|i: int, j: int|
                        0 <= i < self.members().len() && 0 <= j < self.members().len() && i != j
                        implies self.members()[i] != self.members()[j] by {}
                },
            }
        }
    }

    /// The tag under which this key class is written in expression text:
    /// `{d}` for digit keys, `{f}` for function keys.
    pub open spec fn tag_spec(self) -> Seq<char> {
        match self {
            AvKeyParameter::DigitKey => "d"@,
            AvKeyParameter::FunctionKey => "f"@,
        }
    }

    /// Which key class, if any, a tag resolves to. The catalog is closed:
    /// exactly the tags `d` and `f` resolve.
    pub open spec fn resolve_tag(t: Seq<char>) -> Option<AvKeyParameter> {
        if t == "d"@ {
            Some(AvKeyParameter::DigitKey)
        } else if t == "f"@ {
            Some(AvKeyParameter::FunctionKey)
        } else {
            None
        }
    }

    /// Each class's own tag resolves back to it, and no two classes share
    /// a tag spelling.
    pub proof fn lemma_tags_distinct()
        ensures
            forall|p: AvKeyParameter| AvKeyParameter::resolve_tag(#[trigger] p.tag_spec()) == Some(p),
    {
        reveal_strlit("d");
        reveal_strlit("f");
        assert forall|p: AvKeyParameter| AvKeyParameter::resolve_tag(#[trigger] p.tag_spec()) == Some(p) by {
            assert("d"@.len() == 1 && "f"@.len() == 1);
            assert("d"@[0] == 'd' && "f"@[0] == 'f');
            match p {
                AvKeyParameter::DigitKey => {},
                AvKeyParameter::FunctionKey => {
                    assert(p.tag_spec() != "d"@);
                },
            }
        }
    }

    /// Resolves a parameter tag in the catalog; an unknown tag is handed
    /// back unchanged as the error.
    pub fn try_from(value: &str) -> (r: Result<AvKeyParameter, String>)
        ensures
            match AvKeyParameter::resolve_tag(value@) {
                Some(p) => r matches Ok(q) && q == p,
                None => r matches Err(e) && e@ == value@,
            },
    {
        if str_eq(value, "d") {
            Ok(AvKeyParameter::DigitKey)
        } else if str_eq(value, "f") {
            Ok(AvKeyParameter::FunctionKey)
        } else {
            Err(value.to_owned())
        }
    }

    /// Returns this class's tag spelling, e.g. for display as `{d}`.
    pub fn tag(&self) -> (r: String)
        ensures
            r@ == self.tag_spec(),
    {
        match self {
            AvKeyParameter::DigitKey => String::from_str("d"),
            AvKeyParameter::FunctionKey => String::from_str("f"),
        }
    }

    /// Returns the keys in this class's bounds, in ordinal order.
    pub fn keys(&self) -> (r: Vec<KeyCode>)
        ensures
            r@ == self.members(),
    {
        let mut v: Vec<KeyCode> = Vec::new();
        match self {
            AvKeyParameter::DigitKey => {
                v.push(11);
                v.push(2);
                v.push(3);
                v.push(4);
                v.push(5);
                v.push(6);
                v.push(7);
                v.push(8);
                v.push(9);
                v.push(10);
            },
            AvKeyParameter::FunctionKey => {
                v.push(59);
                v.push(60);
                v.push(61);
                v.push(62);
                v.push(63);
                v.push(64);
                v.push(65);
                v.push(66);
                v.push(67);
                v.push(68);
                v.push(87);
                v.push(88);
            },
        }
        proof {
            assert(v@ =~= self.members());
        }
        v
    }

    /// Parameter bijection law: within each key class the ordinal function
    /// is injective over the membership, and defined on exactly that set.
    pub proof fn lemma_parameter_bijection(self)
        ensures
            forall|c1: KeyCode, c2: KeyCode|
                self.members().contains(c1) && self.members().contains(c2)
                    && #[trigger] self.ordinal(c1) == #[trigger] self.ordinal(c2) ==> c1 == c2,
            forall|c: KeyCode| (#[trigger] self.ordinal(c)) is Some <==> self.members().contains(c),
    {
        self.lemma_members_distinct();
        assert forall|c1: KeyCode, c2: KeyCode|
            self.members().contains(c1) && self.members().contains(c2)
                && #[trigger] self.ordinal(c1) == #[trigger] self.ordinal(c2) implies c1 == c2 by {
            let i1 = self.members().index_of(c1);
            let i2 = self.members().index_of(c2);
            assert(0 <= i1 < self.members().len() && self.members()[i1] == c1);
            assert(0 <= i2 < self.members().len() && self.members()[i2] == c2);
            assert(i1 + self.ordinal_base() == i2 + self.ordinal_base());
        }
    }

    /// Returns the value this key class associates with a specific key, or
    /// `None` for a key outside the class.
    pub fn value(&self, key: KeyCode) -> (r: Option<usize>)
        ensures
            r == self.ordinal(key),
    {
        let ks = self.keys();
        let base: usize = match self {
            AvKeyParameter::DigitKey => 0,
            AvKeyParameter::FunctionKey => 1,
        };
        let mut i: usize = 0;
        while i < ks.len()
            invariant
                i <= ks.len(),
                ks@ == self.members(),
                base == self.ordinal_base(),
                ks.len() <= 12,
                forall|j: int| 0 <= j < i ==> ks@[j] != key,
            decreases ks.len() - i,
        {
            if ks[i] == key {
                proof {
                    self.lemma_members_distinct();
                    assert(self.members().contains(key));
                    let x = self.members().index_of(key);
                    assert(0 <= x < self.members().len() && self.members()[x] == key);
                    assert(x == i);
                }
                return Some(i + base);
            }
            i += 1;
        }
        proof {
            assert(!self.members().contains(key));
        }
        None
    }
}

impl AvKey {
    /// Returns the key class if this key is a parameter, else `None`.
    pub fn key_parameter(&self) -> (r: Option<AvKeyParameter>)
        ensures
            r == match *self {
                AvKey::Key(_) => None::<AvKeyParameter>,
                AvKey::Parameter(p) => Some(p),
            },
    {
        match self {
            AvKey::Key(_) => None,
            AvKey::Parameter(p) => Some(*p),
        }
    }

    /// Returns the keycode if this is a fixed physical key, else `None`.
    pub fn key(&self) -> (r: Option<KeyCode>)
        ensures
            r == match *self {
                AvKey::Key(k) => Some(k),
                AvKey::Parameter(_) => None::<KeyCode>,
            },
    {
        match self {
            AvKey::Key(k) => Some(*k),
            AvKey::Parameter(_) => None,
        }
    }

    /// What comparing two keys means, where it is defined at all: two fixed
    /// keys agree on their codes; a fixed key matches a class exactly when
    /// its code is a member; comparing two classes is not a meaningful
    /// operation in this model and has no defined answer.
    pub open spec fn matches_spec(self, other: AvKey) -> Option<bool> {
        match (self, other) {
            (AvKey::Key(l), AvKey::Key(r)) => Some(l == r),
            (AvKey::Key(l), AvKey::Parameter(p)) => Some(p.members().contains(l)),
            (AvKey::Parameter(p), AvKey::Key(r)) => Some(p.members().contains(r)),
            (AvKey::Parameter(_), AvKey::Parameter(_)) => None,
        }
    }

    /// Compares two keys where the comparison is defined; `None` signals the
    /// undefined class-against-class case, which callers must treat as an
    /// error rather than as any boolean.
    pub fn matches(&self, other: &AvKey) -> (r: Option<bool>)
        ensures
            r == self.matches_spec(*other),
    {
        match (self, other) {
            (AvKey::Key(l), AvKey::Key(r)) => Some(*l == *r),
            (AvKey::Key(l), AvKey::Parameter(p)) => Some(contains_code(&p.keys(), *l)),
            (AvKey::Parameter(p), AvKey::Key(r)) => Some(contains_code(&p.keys(), *r)),
            (AvKey::Parameter(_), AvKey::Parameter(_)) => None,
        }
    }
}

/// Parameter equality law: a fixed key that belongs to a class's
/// membership compares equal to that class, in both directions.
pub proof fn lemma_parameter_equality(kind: AvKeyParameter, c: KeyCode)
    requires
        kind.members().contains(c),
    ensures
        AvKey::Key(c).matches_spec(AvKey::Parameter(kind)) == Some(true),
        AvKey::Parameter(kind).matches_spec(AvKey::Key(c)) == Some(true),
{
}

/// Whether a keycode occurs in a vector of keycodes.
fn contains_code(v: &Vec<KeyCode>, key: KeyCode) -> (r: bool)
    ensures
        r == v@.contains(key),
{
    let mut i: usize = 0;
    while i < v.len()
        invariant
            i <= v.len(),
            forall|j: int| 0 <= j < i ==> v@[j] != key,
        decreases v.len() - i,
    {
        if v[i] == key {
            return true;
        }
        i += 1;
    }
    false
}

/// A lookup discriminant: the three spellings under which a registry entry
/// can be found. Lookup is type-directed, so a bare name, a character alias
/// and a small integer alias never shadow one another.
pub enum AvKeyDiscrim<'a> {
    /// A name spelling, matched against name aliases and primary names.
    Str(&'a str),
    /// A character spelling, matched against character aliases only.
    Char(char),
    /// An integer spelling, matched against integer aliases only.
    Int(u32),
}

/// Ghost shape of an [`AvKeyDiscrim`], with the name as a character
/// sequence.
pub enum DiscrimView {
    /// View of [`AvKeyDiscrim::Str`].
    Str(Seq<char>),
    /// View of [`AvKeyDiscrim::Char`].
    Char(char),
    /// View of [`AvKeyDiscrim::Int`].
    Int(u32),
}

impl<'a> View for AvKeyDiscrim<'a> {
    type V = DiscrimView;

    open spec fn view(&self) -> DiscrimView {
        match self {
            AvKeyDiscrim::Str(s) => DiscrimView::Str(s@),
            AvKeyDiscrim::Char(c) => DiscrimView::Char(*c),
            AvKeyDiscrim::Int(v) => DiscrimView::Int(*v),
        }
    }
}

/// Conversion of plain values into the lookup discriminant they stand for.
pub trait IntoAvKeyDiscrim<'a> {
    /// Wraps `self` in the [`AvKeyDiscrim`] variant of its type.
    fn into_discrim(self) -> AvKeyDiscrim<'a>;
}

impl<'a> IntoAvKeyDiscrim<'a> for u32 {
    fn into_discrim(self) -> (r: AvKeyDiscrim<'a>)
        ensures
            r matches AvKeyDiscrim::Int(v) && v == self,
    {
        AvKeyDiscrim::Int(self)
    }
}

impl<'a> IntoAvKeyDiscrim<'a> for &'a str {
    fn into_discrim(self) -> (r: AvKeyDiscrim<'a>)
        ensures
            r matches AvKeyDiscrim::Str(s) && s@ == self@,
    {
        AvKeyDiscrim::Str(self)
    }
}

impl<'a> IntoAvKeyDiscrim<'a> for char {
    fn into_discrim(self) -> (r: AvKeyDiscrim<'a>)
        ensures
            r matches AvKeyDiscrim::Char(c) && c == self,
    {
        AvKeyDiscrim::Char(self)
    }
}

} // verus!
