//! The keycode registry.
//!
//! A [`Registry`] is a table of [`KeyEntry`] rows, each mapping a primary
//! key name and a numeric keycode to zero or more alias spellings (names,
//! single characters, small integers). Within a registry every spelling
//! resolves to exactly one entry; [`Registry::insert`] rejects an entry
//! that would share any spelling with an existing one. Lookup is
//! type-directed through [`AvKeyDiscrim`]: a name is searched only among
//! name spellings, a character only among character aliases, an integer
//! only among integer aliases.
//!
//! The registry is built once, before any expression is processed, and is
//! read-only afterwards.

use vstd::prelude::*;
use vstd::string::*;

use crate::key::AvKey;
use crate::key::AvKeyDiscrim;
use crate::key::AvKeyParameter;
use crate::key::DiscrimView;
use crate::key::KeyCode;
use crate::text::str_eq;

verus! {

/// One alias spelling of a key: a name, a small integer or a single
/// character.
#[derive(Debug, Clone)]
pub enum KeyIdentifier {
    /// An integer spelling, e.g. `1` as an alias of the digit-one key.
    LitInt(u32),
    /// A name spelling, e.g. `Ctrl` as an alias of `LeftCtrl`.
    Ident(String),
    /// A character spelling, e.g. `';'` for the semicolon key.
    LitChar(char),
}

/// Ghost shape of a [`KeyIdentifier`].
pub enum IdentView {
    /// View of [`KeyIdentifier::LitInt`].
    LitInt(u32),
    /// View of [`KeyIdentifier::Ident`].
    Ident(Seq<char>),
    /// View of [`KeyIdentifier::LitChar`].
    LitChar(char),
}

impl View for KeyIdentifier {
    type V = IdentView;

    open spec fn view(&self) -> IdentView {
        match self {
            KeyIdentifier::LitInt(v) => IdentView::LitInt(*v),
            KeyIdentifier::Ident(s) => IdentView::Ident(s@),
            KeyIdentifier::LitChar(c) => IdentView::LitChar(*c),
        }
    }
}

/// One row of the registry: a primary name, its keycode, and the entry's
/// further alias spellings. The primary name is itself a name spelling for
/// lookup purposes but is kept apart for display.
#[derive(Debug, Clone)]
pub struct KeyEntry {
    /// The main, display-preferred name of the key.
    pub primary: String,
    /// The platform keycode the entry resolves to.
    pub code: KeyCode,
    /// Further spellings that resolve to this entry.
    pub aliases: Vec<KeyIdentifier>,
}

/// Ghost shape of a [`KeyEntry`].
pub struct KeyEntryView {
    /// View of the primary name.
    pub primary: Seq<char>,
    /// The keycode.
    pub code: KeyCode,
    /// Views of the alias spellings.
    pub aliases: Seq<IdentView>,
}

impl View for KeyEntry {
    type V = KeyEntryView;

    open spec fn view(&self) -> KeyEntryView {
        KeyEntryView {
            primary: self.primary@,
            code: self.code,
            aliases: self.aliases@.map_values(|a: KeyIdentifier| a@),
        }
    }
}

impl KeyEntryView {
    /// Whether `n` is one of this entry's name spellings: its primary name
    /// or a name alias.
    pub open spec fn has_name(self, n: Seq<char>) -> bool {
        self.primary == n || exists|i: int|
            0 <= i < self.aliases.len() && #[trigger] self.aliases[i] == IdentView::Ident(n)
    }

    /// Whether `c` is one of this entry's character aliases.
    pub open spec fn has_char(self, c: char) -> bool {
        exists|i: int|
            0 <= i < self.aliases.len() && #[trigger] self.aliases[i] == IdentView::LitChar(c)
    }

    /// Whether `v` is one of this entry's integer aliases.
    pub open spec fn has_int(self, v: u32) -> bool {
        exists|i: int|
            0 <= i < self.aliases.len() && #[trigger] self.aliases[i] == IdentView::LitInt(v)
    }

    /// Whether this entry owns the given alias spelling.
    pub open spec fn has_spelling(self, a: IdentView) -> bool {
        match a {
            IdentView::Ident(n) => self.has_name(n),
            IdentView::LitChar(c) => self.has_char(c),
            IdentView::LitInt(v) => self.has_int(v),
        }
    }

    /// Type-directed resolution: whether the discriminant `d` finds this
    /// entry.
    pub open spec fn matches_discrim(self, d: DiscrimView) -> bool {
        match d {
            DiscrimView::Str(n) => self.has_name(n),
            DiscrimView::Char(c) => self.has_char(c),
            DiscrimView::Int(v) => self.has_int(v),
        }
    }

    /// Whether some alias spelling (of any of the three types) belongs to
    /// both entries.
    pub open spec fn shares_spelling(self, other: KeyEntryView) -> bool {
        ||| exists|n: Seq<char>|
            #![trigger self.has_name(n), other.has_name(n)]
            self.has_name(n) && other.has_name(n)
        ||| exists|c: char|
            #![trigger self.has_char(c), other.has_char(c)]
            self.has_char(c) && other.has_char(c)
        ||| exists|v: u32|
            #![trigger self.has_int(v), other.has_int(v)]
            self.has_int(v) && other.has_int(v)
    }

    /// Sharing a spelling is mutual.
    pub proof fn lemma_shares_spelling_sym(self, other: KeyEntryView)
        ensures
            self.shares_spelling(other) == other.shares_spelling(self),
    {
        if self.shares_spelling(other) {
            assert(other.shares_spelling(self)) by {
                if exists|n: Seq<char>|
                    #![trigger self.has_name(n), other.has_name(n)]
                    self.has_name(n) && other.has_name(n) {
                    let n = choose|n: Seq<char>|
                        #![trigger self.has_name(n), other.has_name(n)]
                        self.has_name(n) && other.has_name(n);
                    assert(other.has_name(n) && self.has_name(n));
                } else if exists|c: char|
                    #![trigger self.has_char(c), other.has_char(c)]
                    self.has_char(c) && other.has_char(c) {
                    let c = choose|c: char|
                        #![trigger self.has_char(c), other.has_char(c)]
                        self.has_char(c) && other.has_char(c);
                    assert(other.has_char(c) && self.has_char(c));
                } else {
                    let v = choose|v: u32|
                        #![trigger self.has_int(v), other.has_int(v)]
                        self.has_int(v) && other.has_int(v);
                    assert(other.has_int(v) && self.has_int(v));
                }
            }
        }
        if other.shares_spelling(self) {
            assert(self.shares_spelling(other)) by {
                if exists|n: Seq<char>|
                    #![trigger other.has_name(n), self.has_name(n)]
                    other.has_name(n) && self.has_name(n) {
                    let n = choose|n: Seq<char>|
                        #![trigger other.has_name(n), self.has_name(n)]
                        other.has_name(n) && self.has_name(n);
                    assert(self.has_name(n) && other.has_name(n));
                } else if exists|c: char|
                    #![trigger other.has_char(c), self.has_char(c)]
                    other.has_char(c) && self.has_char(c) {
                    let c = choose|c: char|
                        #![trigger other.has_char(c), self.has_char(c)]
                        other.has_char(c) && self.has_char(c);
                    assert(self.has_char(c) && other.has_char(c));
                } else {
                    let v = choose|v: u32|
                        #![trigger other.has_int(v), self.has_int(v)]
                        other.has_int(v) && self.has_int(v);
                    assert(self.has_int(v) && other.has_int(v));
                }
            }
        }
    }
}

/// The entry, if any, that a discriminant resolves to: the first entry of
/// `reg`, scanning from `i`, that owns the spelling.
pub open spec fn lookup_from(reg: Seq<KeyEntryView>, d: DiscrimView, i: int) -> Option<
    KeyEntryView,
>
    decreases reg.len() - i,
{
    if i < 0 || i >= reg.len() {
        None
    } else if reg[i].matches_discrim(d) {
        Some(reg[i])
    } else {
        lookup_from(reg, d, i + 1)
    }
}

/// The entry, if any, that a discriminant resolves to in the registry.
pub open spec fn spec_lookup(reg: Seq<KeyEntryView>, d: DiscrimView) -> Option<KeyEntryView> {
    lookup_from(reg, d, 0)
}

/// The first entry, if any, carrying a keycode, scanning from `i`.
pub open spec fn lookup_code_from(reg: Seq<KeyEntryView>, code: KeyCode, i: int) -> Option<
    KeyEntryView,
>
    decreases reg.len() - i,
{
    if i < 0 || i >= reg.len() {
        None
    } else if reg[i].code == code {
        Some(reg[i])
    } else {
        lookup_code_from(reg, code, i + 1)
    }
}

/// The first entry, if any, carrying the given keycode.
pub open spec fn spec_lookup_code(reg: Seq<KeyEntryView>, code: KeyCode) -> Option<KeyEntryView> {
    lookup_code_from(reg, code, 0)
}

/// The name spellings among the first `n` alias spellings, in order.
pub open spec fn names_up_to(aliases: Seq<IdentView>, n: int) -> Seq<Seq<char>>
    decreases n,
{
    if n <= 0 {
        Seq::empty()
    } else {
        names_up_to(aliases, n - 1) + (match aliases[n - 1] {
            IdentView::Ident(s) => seq![s],
            _ => Seq::empty(),
        })
    }
}

/// The first of the shortest entries among `names[0..n]` (`n >= 1`).
pub open spec fn first_shortest_up_to(names: Seq<Seq<char>>, n: int) -> Seq<char>
    decreases n,
{
    if n <= 1 {
        names[0]
    } else if names[n - 1].len() < first_shortest_up_to(names, n - 1).len() {
        names[n - 1]
    } else {
        first_shortest_up_to(names, n - 1)
    }
}

/// What a scan from `i` returns: the first matching index at or after
/// `i`, or nothing when no entry from `i` on matches.
pub proof fn lemma_lookup_from_props(reg: Seq<KeyEntryView>, d: DiscrimView, i: int)
    requires
        0 <= i,
    ensures
        match lookup_from(reg, d, i) {
            Some(e) => exists|j: int|
                {
                    &&& i <= j < reg.len()
                    &&& e == reg[j]
                    &&& (#[trigger] reg[j]).matches_discrim(d)
                    &&& forall|k: int| i <= k < j ==> !(#[trigger] reg[k]).matches_discrim(d)
                },
            None => forall|k: int| i <= k < reg.len() ==> !(#[trigger] reg[k]).matches_discrim(d),
        },
    decreases reg.len() - i,
{
    if i < reg.len() && !reg[i].matches_discrim(d) {
        lemma_lookup_from_props(reg, d, i + 1);
    }
}

/// In a well-formed registry resolution is unambiguous: a discriminant
/// that any entry owns resolves to exactly that entry, wherever it
/// stands in the table.
pub proof fn lemma_lookup_unambiguous(r: Registry, d: DiscrimView, i: int)
    requires
        r.wf(),
        0 <= i < r@.len(),
        r@[i].matches_discrim(d),
    ensures
        spec_lookup(r@, d) == Some(r@[i]),
{
    lemma_lookup_from_props(r@, d, 0);
    match spec_lookup(r@, d) {
        Some(e) => {
            let j = choose|j: int|
                {
                    &&& 0 <= j < r@.len()
                    &&& e == r@[j]
                    &&& (#[trigger] r@[j]).matches_discrim(d)
                    &&& forall|k: int| 0 <= k < j ==> !(#[trigger] r@[k]).matches_discrim(d)
                };
            if j != i {
                assert(r@[i].shares_spelling(r@[j])) by {
                    match d {
                        DiscrimView::Str(n) => {
                            assert(r@[i].has_name(n) && r@[j].has_name(n));
                        },
                        DiscrimView::Char(c) => {
                            assert(r@[i].has_char(c) && r@[j].has_char(c));
                        },
                        DiscrimView::Int(v) => {
                            assert(r@[i].has_int(v) && r@[j].has_int(v));
                        },
                    }
                }
                assert(false);
            }
        },
        None => {
            assert(!r@[i].matches_discrim(d));
        },
    }
}

/// Failure of registry construction.
#[derive(Debug, Clone, Copy, PartialEq, Eq, Structural)]
pub enum RegistryError {
    /// The inserted entry shares an alias spelling with the entry already
    /// at the given index.
    AliasCollision {
        /// Index of the existing entry that owns the contested spelling.
        existing: usize,
    },
}

/// The keycode registry: the rows inserted so far, in insertion order,
/// with no alias spelling belonging to two rows.
#[derive(Debug)]
pub struct Registry {
    entries: Vec<KeyEntry>,
}

impl View for Registry {
    type V = Seq<KeyEntryView>;

    closed spec fn view(&self) -> Seq<KeyEntryView> {
        self.entries@.map_values(|e: KeyEntry| e@)
    }
}

impl Registry {
    /// Every alias spelling resolves to at most one entry: no two distinct
    /// rows share a spelling.
    pub open spec fn wf(self) -> bool {
        forall|i: int, j: int|
            #![trigger self@[i].shares_spelling(self@[j])]
            0 <= i < self@.len() && 0 <= j < self@.len() && i != j
                ==> !self@[i].shares_spelling(self@[j])
    }

    /// Builds an empty registry.
    pub fn new() -> (r: Registry)
        ensures
            r@ == Seq::<KeyEntryView>::empty(),
            r.wf(),
    {
        let r = Registry { entries: Vec::new() };
        proof {
            assert(r@ =~= Seq::<KeyEntryView>::empty());
        }
        r
    }

    /// Adds one row. Fails, leaving the registry unchanged, exactly when
    /// some spelling of the new entry already belongs to an existing one;
    /// the error names the first entry hit.
    pub fn insert(&mut self, entry: KeyEntry) -> (r: Result<(), RegistryError>)
        requires
            old(self).wf(),
        ensures
            final(self).wf(),
            r matches Ok(()) ==> final(self)@ == old(self)@.push(entry@),
            r matches Err(_) ==> final(self)@ == old(self)@,
            (r matches Ok(())) <==> (forall|i: int|
                0 <= i < old(self)@.len() ==> !(#[trigger] old(self)@[i]).shares_spelling(entry@)),
            r matches Err(RegistryError::AliasCollision { existing }) ==> {
                &&& 0 <= existing < old(self)@.len()
                &&& old(self)@[existing as int].shares_spelling(entry@)
            },
    {
        let n = self.entries.len();
        let mut i: usize = 0;
        while i < n
            invariant
                n == self.entries.len(),
                i <= n,
                *self == *old(self),
                old(self).wf(),
                forall|k: int| 0 <= k < i ==> !(#[trigger] self@[k]).shares_spelling(entry@),
            decreases n - i,
        {
            if entries_collide(&self.entries[i], &entry) {
                proof {
                    assert(self@[i as int] == self.entries@[i as int]@);
                    assert(old(self)@[i as int].shares_spelling(entry@));
                    assert(self@ == old(self)@);
                    assert((*self).wf());
                }
                return Err(RegistryError::AliasCollision { existing: i });
            }
            i += 1;
        }
        self.entries.push(entry);
        proof {
            assert(self@ =~= old(self)@.push(entry@));
            assert forall|i2: int, j2: int|
                0 <= i2 < self@.len() && 0 <= j2 < self@.len() && i2 != j2 implies !(
                #[trigger] self@[i2].shares_spelling(#[trigger] self@[j2])) by {
                let last = self@.len() - 1;
                if i2 == last && j2 < last {
                    self@[j2].lemma_shares_spelling_sym(self@[i2]);
                } else if j2 == last && i2 < last {
                } else {
                    assert(old(self)@[i2] == self@[i2] && old(self)@[j2] == self@[j2]);
                }
            }
        }
        Ok(())
    }

    /// Looks a discriminant up among the entries, type-directed; returns
    /// the first (in a well-formed registry: the only) entry owning that
    /// spelling, or `None` when no entry does.
    pub fn lookup<'a>(&'a self, d: AvKeyDiscrim<'_>) -> (r: Option<&'a KeyEntry>)
        ensures
            match r {
                Some(e) => {
                    &&& spec_lookup(self@, d@) == Some(e@)
                    &&& exists|i: int|
                        {
                            &&& 0 <= i < self@.len()
                            &&& e@ == self@[i]
                            &&& (#[trigger] self@[i]).matches_discrim(d@)
                            &&& forall|j: int|
                                0 <= j < i ==> !(#[trigger] self@[j]).matches_discrim(d@)
                        }
                },
                None => {
                    &&& spec_lookup(self@, d@) is None
                    &&& forall|i: int|
                        0 <= i < self@.len() ==> !(#[trigger] self@[i]).matches_discrim(d@)
                },
            },
    {
        let n = self.entries.len();
        let mut i: usize = 0;
        while i < n
            invariant
                n == self.entries.len(),
                i <= n,
                forall|k: int| 0 <= k < i ==> !(#[trigger] self@[k]).matches_discrim(d@),
                spec_lookup(self@, d@) == lookup_from(self@, d@, i as int),
            decreases n - i,
        {
            if entry_matches(&self.entries[i], &d) {
                proof {
                    assert(self@[i as int] == self.entries@[i as int]@);
                    assert(self@[i as int].matches_discrim(d@));
                }
                return Some(&self.entries[i]);
            }
            i += 1;
        }
        None
    }

    /// Returns the first entry carrying the given keycode, or `None` when
    /// no entry does. Several rows may share a code (distinct spellings of
    /// one physical key), so "first" matters here.
    pub fn lookup_code<'a>(&'a self, code: KeyCode) -> (r: Option<&'a KeyEntry>)
        ensures
            match r {
                Some(e) => {
                    &&& spec_lookup_code(self@, code) == Some(e@)
                    &&& exists|i: int|
                        {
                            &&& 0 <= i < self@.len()
                            &&& e@ == self@[i]
                            &&& (#[trigger] self@[i]).code == code
                            &&& forall|j: int| 0 <= j < i ==> (#[trigger] self@[j]).code != code
                        }
                },
                None => {
                    &&& spec_lookup_code(self@, code) is None
                    &&& forall|i: int|
                        0 <= i < self@.len() ==> (#[trigger] self@[i]).code != code
                },
            },
    {
        let n = self.entries.len();
        let mut i: usize = 0;
        while i < n
            invariant
                n == self.entries.len(),
                i <= n,
                forall|k: int| 0 <= k < i ==> (#[trigger] self@[k]).code != code,
                spec_lookup_code(self@, code) == lookup_code_from(self@, code, i as int),
            decreases n - i,
        {
            if self.entries[i].code == code {
                proof {
                    assert(self@[i as int] == self.entries@[i as int]@);
                    assert(self@[i as int].code == code);
                }
                return Some(&self.entries[i]);
            }
            i += 1;
        }
        None
    }

    /// The display text of a key: the display name of the first entry
    /// carrying its code (there is none for an unregistered code), or the
    /// braced tag of a key class.
    pub fn key_text(&self, k: &AvKey) -> (r: Result<String, ()>)
        ensures
            match *k {
                AvKey::Key(code) => match spec_lookup_code(self@, code) {
                    Some(e) => r matches Ok(s) && s@ == e.spec_display_name(),
                    None => r matches Err(_),
                },
                AvKey::Parameter(p) => r matches Ok(s) && s@ == seq!['{'] + p.tag_spec()
                    + seq!['}'],
            },
    {
        match k {
            AvKey::Key(code) => match self.lookup_code(*code) {
                Some(e) => Ok(e.display_name()),
                None => Err(()),
            },
            AvKey::Parameter(p) => {
                let mut t = String::from_str("{");
                t.append(p.tag().as_str());
                t.append("}");
                proof {
                    reveal_strlit("{");
                    reveal_strlit("}");
                    assert(t@ =~= seq!['{'] + p.tag_spec() + seq!['}']);
                }
                Ok(t)
            },
        }
    }

    /// How many rows the registry holds.
    pub fn len(&self) -> (r: usize)
        ensures
            r == self@.len(),
    {
        self.entries.len()
    }
}

/// Alias bijection law: in a well-formed registry the spelling sets of
/// two distinct entries are disjoint — no name, character or integer
/// spelling belongs to both.
pub proof fn lemma_alias_bijection(r: Registry, i: int, j: int, a: IdentView)
    requires
        r.wf(),
        0 <= i < r@.len(),
        0 <= j < r@.len(),
        i != j,
    ensures
        !(r@[i].has_spelling(a) && r@[j].has_spelling(a)),
{
    if r@[i].has_spelling(a) && r@[j].has_spelling(a) {
        assert(r@[i].shares_spelling(r@[j])) by {
            match a {
                IdentView::Ident(n) => {
                    assert(r@[i].has_name(n) && r@[j].has_name(n));
                },
                IdentView::LitChar(c) => {
                    assert(r@[i].has_char(c) && r@[j].has_char(c));
                },
                IdentView::LitInt(v) => {
                    assert(r@[i].has_int(v) && r@[j].has_int(v));
                },
            }
        }
    }
}

impl KeyEntryView {
    /// The entry's name spellings for display: the primary name first,
    /// then the name aliases in order.
    pub open spec fn display_names(self) -> Seq<Seq<char>> {
        seq![self.primary] + names_up_to(self.aliases, self.aliases.len() as int)
    }

    /// The name this entry is displayed under: the first of its shortest
    /// name spellings.
    pub open spec fn spec_display_name(self) -> Seq<char> {
        first_shortest_up_to(self.display_names(), self.display_names().len() as int)
    }
}

impl KeyEntry {
    /// The fixed key this entry stands for.
    pub fn to_key(&self) -> (r: AvKey)
        ensures
            r == AvKey::Key(self@.code),
    {
        AvKey::Key(self.code)
    }

    /// The entry's name spellings for display, primary first.
    fn display_name_candidates(&self) -> (r: Vec<String>)
        ensures
            r@.map_values(|t: String| t@) == self@.display_names(),
            r@.len() >= 1,
    {
        let mut out: Vec<String> = Vec::new();
        let primary = self.primary.clone();
        out.push(primary);
        let n = self.aliases.len();
        let mut i: usize = 0;
        while i < n
            invariant
                n == self.aliases.len(),
                i <= n,
                out@.len() == 1 + names_up_to(self@.aliases, i as int).len(),
                out@[0]@ == self@.primary,
                forall|m: int|
                    1 <= m < out@.len() ==> (#[trigger] out@[m]@) == names_up_to(
                        self@.aliases,
                        i as int,
                    )[m - 1],
            decreases n - i,
        {
            proof {
                assert(self@.aliases[i as int] == self.aliases@[i as int]@);
            }
            match &self.aliases[i] {
                KeyIdentifier::Ident(a) => {
                    let ac = a.clone();
                    let ghost g: Seq<char> = ac@;
                    proof {
                        assert(self@.aliases[i as int] == IdentView::Ident(g));
                        assert(names_up_to(self@.aliases, i as int + 1) == names_up_to(
                            self@.aliases,
                            i as int,
                        ) + seq![g]);
                    }
                    out.push(ac);
                },
                _ => {
                    proof {
                        assert(names_up_to(self@.aliases, i as int + 1) =~= names_up_to(
                            self@.aliases,
                            i as int,
                        ));
                    }
                },
            }
            i += 1;
        }
        proof {
            assert(out@.map_values(|t: String| t@) =~= self@.display_names());
        }
        out
    }

    /// Returns the name this entry is displayed under: the first of its
    /// shortest name spellings (primary name and name aliases).
    pub fn display_name(&self) -> (r: String)
        ensures
            r@ == self@.spec_display_name(),
    {
        let names = self.display_name_candidates();
        let n = names.len();
        let mut best = names[0].clone();
        let mut k: usize = 1;
        proof {
            assert(best@ == self@.display_names()[0]);
        }
        while k < n
            invariant
                1 <= k <= n,
                n == names.len(),
                n >= 1,
                names@.map_values(|t: String| t@) == self@.display_names(),
                best@ == first_shortest_up_to(self@.display_names(), k as int),
            decreases n - k,
        {
            if names[k].unicode_len() < best.unicode_len() {
                best = names[k].clone();
            }
            proof {
                assert(names@[k as int]@ == self@.display_names()[k as int]);
                assert(best@ == first_shortest_up_to(self@.display_names(), k as int + 1));
            }
            k += 1;
        }
        proof {
            assert(self@.display_names().len() == n);
        }
        best
    }
}

/// Whether `n` is one of `e`'s name spellings (primary or name alias).
fn entry_has_name(e: &KeyEntry, n: &str) -> (r: bool)
    ensures
        r == e@.has_name(n@),
{
    if str_eq(e.primary.as_str(), n) {
        return true;
    }
    let m = e.aliases.len();
    let mut i: usize = 0;
    while i < m
        invariant
            m == e.aliases.len(),
            i <= m,
            forall|k: int| 0 <= k < i ==> #[trigger] e@.aliases[k] != IdentView::Ident(n@),
        decreases m - i,
    {
        match &e.aliases[i] {
            KeyIdentifier::Ident(s) => {
                if str_eq(s.as_str(), n) {
                    proof {
                        assert(e@.aliases[i as int] == IdentView::Ident(n@));
                    }
                    return true;
                }
            },
            _ => {},
        }
        i += 1;
    }
    proof {
        assert(!e@.has_name(n@));
    }
    false
}

/// Whether `c` is one of `e`'s character aliases.
fn entry_has_char(e: &KeyEntry, c: char) -> (r: bool)
    ensures
        r == e@.has_char(c),
{
    let m = e.aliases.len();
    let mut i: usize = 0;
    while i < m
        invariant
            m == e.aliases.len(),
            i <= m,
            forall|k: int| 0 <= k < i ==> #[trigger] e@.aliases[k] != IdentView::LitChar(c),
        decreases m - i,
    {
        match &e.aliases[i] {
            KeyIdentifier::LitChar(c2) => {
                if *c2 == c {
                    proof {
                        assert(e@.aliases[i as int] == IdentView::LitChar(c));
                    }
                    return true;
                }
            },
            _ => {},
        }
        i += 1;
    }
    false
}

/// Whether `v` is one of `e`'s integer aliases.
fn entry_has_int(e: &KeyEntry, v: u32) -> (r: bool)
    ensures
        r == e@.has_int(v),
{
    let m = e.aliases.len();
    let mut i: usize = 0;
    while i < m
        invariant
            m == e.aliases.len(),
            i <= m,
            forall|k: int| 0 <= k < i ==> #[trigger] e@.aliases[k] != IdentView::LitInt(v),
        decreases m - i,
    {
        match &e.aliases[i] {
            KeyIdentifier::LitInt(v2) => {
                if *v2 == v {
                    proof {
                        assert(e@.aliases[i as int] == IdentView::LitInt(v));
                    }
                    return true;
                }
            },
            _ => {},
        }
        i += 1;
    }
    false
}

/// Type-directed check whether the discriminant `d` finds entry `e`.
fn entry_matches(e: &KeyEntry, d: &AvKeyDiscrim<'_>) -> (r: bool)
    ensures
        r == e@.matches_discrim(d@),
{
    match d {
        AvKeyDiscrim::Str(n) => entry_has_name(e, n),
        AvKeyDiscrim::Char(c) => entry_has_char(e, *c),
        AvKeyDiscrim::Int(v) => entry_has_int(e, *v),
    }
}

/// Whether the two entries share any alias spelling.
fn entries_collide(a: &KeyEntry, b: &KeyEntry) -> (r: bool)
    ensures
        r == a@.shares_spelling(b@),
{
    if entry_has_name(a, b.primary.as_str()) {
        proof {
            assert(b@.has_name(b@.primary));
        }
        return true;
    }
    let m = b.aliases.len();
    let mut i: usize = 0;
    while i < m
        invariant
            m == b.aliases.len(),
            !a@.has_name(b@.primary),
            i <= m,
            forall|k: int| 0 <= k < i ==> !a@.has_spelling(#[trigger] b@.aliases[k]),
        decreases m - i,
    {
        let hit = match &b.aliases[i] {
            KeyIdentifier::Ident(s) => entry_has_name(a, s.as_str()),
            KeyIdentifier::LitChar(c) => entry_has_char(a, *c),
            KeyIdentifier::LitInt(v) => entry_has_int(a, *v),
        };
        if hit {
            proof {
                assert(b@.has_spelling(b@.aliases[i as int]));
            }
            return true;
        }
        i += 1;
    }
    proof {
        assert(!a@.shares_spelling(b@)) by {
            if exists|n: Seq<char>|
                #![trigger a@.has_name(n), b@.has_name(n)]
                a@.has_name(n) && b@.has_name(n) {
                let n = choose|n: Seq<char>|
                    #![trigger a@.has_name(n), b@.has_name(n)]
                    a@.has_name(n) && b@.has_name(n);
                if n == b@.primary {
                } else {
                    let k = choose|k: int|
                        0 <= k < b@.aliases.len() && #[trigger] b@.aliases[k] == IdentView::Ident(
                            n,
                        );
                    assert(!a@.has_spelling(b@.aliases[k]));
                }
            }
            if exists|c: char|
                #![trigger a@.has_char(c), b@.has_char(c)]
                a@.has_char(c) && b@.has_char(c) {
                let c = choose|c: char|
                    #![trigger a@.has_char(c), b@.has_char(c)]
                    a@.has_char(c) && b@.has_char(c);
                let k = choose|k: int|
                    0 <= k < b@.aliases.len() && #[trigger] b@.aliases[k] == IdentView::LitChar(c);
                assert(!a@.has_spelling(b@.aliases[k]));
            }
            if exists|v: u32|
                #![trigger a@.has_int(v), b@.has_int(v)]
                a@.has_int(v) && b@.has_int(v) {
                let v = choose|v: u32|
                    #![trigger a@.has_int(v), b@.has_int(v)]
                    a@.has_int(v) && b@.has_int(v);
                let k = choose|k: int|
                    0 <= k < b@.aliases.len() && #[trigger] b@.aliases[k] == IdentView::LitInt(v);
                assert(!a@.has_spelling(b@.aliases[k]));
            }
        }
    }
    false
}

} // verus!
