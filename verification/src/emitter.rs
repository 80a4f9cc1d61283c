//! Lowering and the binding-descriptor emitter.
//!
//! Lowering turns each parsed term into an [`AvKey`]: name, char and int
//! terms resolve through the registry (failing with an unknown-alias
//! error that carries the term's spelling and span), a bracketed code
//! becomes a fixed key directly without registry involvement, and a
//! `{tag}` term resolves through the key-parameter catalog. The emitter
//! runs the whole pipeline — parse, validate, lower — and combines the
//! lowered key sequence with the validator's assignment plan into the
//! final [`BindingDescriptor`], preserving declaration order throughout.

use vstd::prelude::*;
use vstd::string::*;

use crate::diag::ErrorView;
use crate::diag::KeybindError;
use crate::diag::Span;
use crate::key::AvKey;
use crate::key::AvKeyDiscrim;
use crate::key::AvKeyParameter;
use crate::key::DiscrimView;
use crate::parser::ParsedKey;
use crate::parser::ParsedKeyDisc;
use crate::parser::ParsedKeyView;
use crate::parser::ParsedKeybind;
use crate::parser::lemma_scan_cont;
use crate::parser::lemma_scan_digits;
use crate::parser::scan_cont;
use crate::parser::scan_digits;
use crate::parser::spec_parse;
use crate::registry::IdentView;
use crate::registry::KeyEntryView;
use crate::registry::KeyIdentifier;
use crate::registry::Registry;
use crate::registry::spec_lookup;
use crate::text::all_digits;
use crate::text::digits_value;
use crate::text::is_ident_seq;
use crate::text::is_ident_start_char;
use crate::validator::AssignmentPlan;
use crate::validator::CallbackParam;
use crate::validator::params_view;
use crate::validator::spec_plan;
use crate::validator::spec_validation_errors;

verus! {

/// The registry discriminant under which a name term's spelling is looked
/// up: each of the three shapes against its own alias type.
pub open spec fn discrim_of(d: IdentView) -> DiscrimView {
    match d {
        IdentView::Ident(n) => DiscrimView::Str(n),
        IdentView::LitChar(c) => DiscrimView::Char(c),
        IdentView::LitInt(v) => DiscrimView::Int(v),
    }
}

/// What one term lowers to: a fixed key for a resolved name or a raw
/// code, a key class for a known tag; otherwise the error naming what did
/// not resolve, at the term's span.
pub open spec fn spec_lower_term(t: ParsedKeyView, reg: Seq<KeyEntryView>) -> Result<
    AvKey,
    ErrorView,
> {
    match t {
        ParsedKeyView::Name(d, sp) => match spec_lookup(reg, discrim_of(d)) {
            Some(e) => Ok(AvKey::Key(e.code)),
            None => Err(ErrorView::UnknownAlias { span: sp, spelling: d }),
        },
        ParsedKeyView::Code(v, _) => Ok(AvKey::Key(v)),
        ParsedKeyView::Parameter(tag, sp) => match AvKeyParameter::resolve_tag(tag) {
            Some(p) => Ok(AvKey::Parameter(p)),
            None => Err(ErrorView::UnknownParameterTag { span: sp, tag }),
        },
    }
}

/// The keys that the first `n` terms lower to, in order, skipping terms
/// that fail.
pub open spec fn lower_keys_up_to(expr: Seq<ParsedKeyView>, reg: Seq<KeyEntryView>, n: int) -> Seq<
    AvKey,
>
    decreases n,
{
    if n <= 0 {
        Seq::empty()
    } else {
        lower_keys_up_to(expr, reg, n - 1) + (match spec_lower_term(expr[n - 1], reg) {
            Ok(k) => seq![k],
            Err(_) => Seq::empty(),
        })
    }
}

/// The lowering failures among the first `n` terms, in order.
pub open spec fn lower_errors_up_to(
    expr: Seq<ParsedKeyView>,
    reg: Seq<KeyEntryView>,
    n: int,
) -> Seq<ErrorView>
    decreases n,
{
    if n <= 0 {
        Seq::empty()
    } else {
        lower_errors_up_to(expr, reg, n - 1) + (match spec_lower_term(expr[n - 1], reg) {
            Ok(_) => Seq::empty(),
            Err(e) => seq![e],
        })
    }
}

/// The key sequence a whole expression lowers to (meaningful when no term
/// fails).
pub open spec fn spec_lower_keys(expr: Seq<ParsedKeyView>, reg: Seq<KeyEntryView>) -> Seq<AvKey> {
    lower_keys_up_to(expr, reg, expr.len() as int)
}

/// Every lowering failure of a whole expression, in term order.
pub open spec fn spec_lower_errors(expr: Seq<ParsedKeyView>, reg: Seq<KeyEntryView>) -> Seq<
    ErrorView,
> {
    lower_errors_up_to(expr, reg, expr.len() as int)
}

/// When no term fails, lowering keeps the expression's length and lowers
/// its terms pointwise.
pub proof fn lemma_lower_total(expr: Seq<ParsedKeyView>, reg: Seq<KeyEntryView>, n: int)
    requires
        0 <= n <= expr.len(),
        lower_errors_up_to(expr, reg, n).len() == 0,
    ensures
        lower_keys_up_to(expr, reg, n).len() == n,
        forall|k: int|
            0 <= k < n ==> Ok::<AvKey, ErrorView>(lower_keys_up_to(expr, reg, n)[k])
                == spec_lower_term(#[trigger] expr[k], reg),
    decreases n,
{
    if n > 0 {
        lemma_lower_total(expr, reg, n - 1);
    }
}

/// The final, structured output of the compiler: the default key sequence
/// a declaration lowers to, and the plan binding each parameter position
/// to its argument slot. Created once and never mutated; a runtime may
/// later prefer a user-overridden key sequence over `default_keys`.
#[derive(Debug, Clone)]
pub struct BindingDescriptor {
    /// The expression's terms, lowered to keys in declaration order.
    pub default_keys: Vec<AvKey>,
    /// For each parameter position, the key class bound at it.
    pub parameter_assignment_plan: AssignmentPlan,
}

/// The whole compiler's verdict on a declaration: the lowered keys and
/// the assignment plan, or every error of the stage that failed — the
/// parse error alone, otherwise all validation errors, otherwise all
/// lowering errors.
pub open spec fn spec_compile(
    s: Seq<char>,
    params: Seq<crate::validator::CallbackParamView>,
    reg: Seq<KeyEntryView>,
) -> Result<(Seq<AvKey>, Seq<(usize, AvKeyParameter)>), Seq<ErrorView>> {
    match spec_parse(s) {
        Err(e) => Err(seq![e]),
        Ok(expr) => {
            let verrs = spec_validation_errors(expr, params);
            if verrs.len() > 0 {
                Err(verrs)
            } else if spec_lower_errors(expr, reg).len() > 0 {
                Err(spec_lower_errors(expr, reg))
            } else {
                Ok((spec_lower_keys(expr, reg), spec_plan(expr)))
            }
        },
    }
}

impl ParsedKey {
    /// Lowers this one term through the registry (names) or the catalog
    /// (parameter tags); a raw code term needs neither.
    pub fn to_lookup(&self, registry: &Registry) -> (r: Result<AvKey, KeybindError>)
        ensures
            match spec_lower_term(self@, registry@) {
                Ok(k) => r matches Ok(k2) && k2 == k,
                Err(ev) => r matches Err(e) && e@ == ev,
            },
    {
        match self {
            ParsedKey::Name(d, sp) => {
                let found = match d {
                    ParsedKeyDisc::Ident(s) => registry.lookup(AvKeyDiscrim::Str(s.as_str())),
                    ParsedKeyDisc::LitChar(c) => registry.lookup(AvKeyDiscrim::Char(*c)),
                    ParsedKeyDisc::LitInt(v) => registry.lookup(AvKeyDiscrim::Int(*v)),
                };
                match found {
                    Some(e) => Ok(AvKey::Key(e.code)),
                    None => {
                        let spelling = match d {
                            ParsedKeyDisc::Ident(s) => KeyIdentifier::Ident(s.clone()),
                            ParsedKeyDisc::LitChar(c) => KeyIdentifier::LitChar(*c),
                            ParsedKeyDisc::LitInt(v) => KeyIdentifier::LitInt(*v),
                        };
                        Err(KeybindError::UnknownAlias { span: *sp, spelling })
                    },
                }
            },
            ParsedKey::Code(v, _) => Ok(AvKey::Key(*v)),
            ParsedKey::Parameter(t, sp) => match AvKeyParameter::try_from(t.as_str()) {
                Ok(p) => Ok(AvKey::Parameter(p)),
                Err(tag) => Err(KeybindError::UnknownParameterTag { span: *sp, tag }),
            },
        }
    }
}

impl ParsedKeybind {
    /// Lowers every term of the expression, in order. Succeeds with the
    /// full key sequence when every term resolves; otherwise returns all
    /// lowering failures together.
    pub fn lower(&self, registry: &Registry) -> (r: Result<Vec<AvKey>, Vec<KeybindError>>)
        ensures
            match r {
                Ok(keys) => {
                    &&& spec_lower_errors(self@, registry@).len() == 0
                    &&& keys@ == spec_lower_keys(self@, registry@)
                },
                Err(errs) => {
                    &&& errs@.map_values(|e: KeybindError| e@) == spec_lower_errors(
                        self@,
                        registry@,
                    )
                    &&& errs@.len() > 0
                },
            },
    {
        let n = self.0.len();
        let mut keys: Vec<AvKey> = Vec::new();
        let mut errs: Vec<KeybindError> = Vec::new();
        let mut i: usize = 0;
        while i < n
            invariant
                n == self.0.len(),
                i <= n,
                keys@ =~= lower_keys_up_to(self@, registry@, i as int),
                errs@.map_values(|e: KeybindError| e@) =~= lower_errors_up_to(
                    self@,
                    registry@,
                    i as int,
                ),
            decreases n - i,
        {
            match self.0[i].to_lookup(registry) {
                Ok(k) => keys.push(k),
                Err(e) => errs.push(e),
            }
            proof {
                assert(self@[i as int] == self.0@[i as int]@);
                assert(keys@ =~= lower_keys_up_to(self@, registry@, i as int + 1));
                assert(errs@.map_values(|e: KeybindError| e@) =~= lower_errors_up_to(
                    self@,
                    registry@,
                    i as int + 1,
                ));
            }
            i += 1;
        }
        if errs.len() > 0 {
            Err(errs)
        } else {
            proof {
                assert(keys@ =~= spec_lower_keys(self@, registry@));
            }
            Ok(keys)
        }
    }
}

/// Runs the whole compiler on one declaration: parses the expression,
/// validates it against the declared extra arguments, lowers it through
/// the registry, and emits the binding descriptor. Fails with the parse
/// error, or with all validation errors, or with all lowering errors —
/// exactly as [`spec_compile`] says.
pub fn compile(text: &str, params: &Vec<CallbackParam>, registry: &Registry) -> (r: Result<
    BindingDescriptor,
    Vec<KeybindError>,
>)
    ensures
        match spec_compile(text@, params_view(params@), registry@) {
            Ok((keys, plan)) => {
                &&& r matches Ok(d) && d.default_keys@ == keys && d.parameter_assignment_plan@
                    == plan
            },
            Err(evs) => r matches Err(es) && es@.map_values(|e: KeybindError| e@) == evs,
        },
{
    let kb = match ParsedKeybind::parse(text) {
        Ok(kb) => kb,
        Err(e) => {
            let mut v: Vec<KeybindError> = Vec::new();
            v.push(e);
            proof {
                assert(v@.map_values(|e2: KeybindError| e2@) =~= spec_compile(
                    text@,
                    params_view(params@),
                    registry@,
                )->Err_0);
            }
            return Err(v);
        },
    };
    let plan = match kb.validate(params) {
        Ok(plan) => plan,
        Err(errs) => {
            return Err(errs);
        },
    };
    match kb.lower(registry) {
        Ok(keys) => Ok(BindingDescriptor { default_keys: keys, parameter_assignment_plan: plan }),
        Err(errs) => Err(errs),
    }
}

/// The compiler never fails silently: a failing declaration always comes
/// back with at least one error.
pub proof fn lemma_compile_errors_nonempty(
    s: Seq<char>,
    params: Seq<crate::validator::CallbackParamView>,
    reg: Seq<KeyEntryView>,
)
    requires
        spec_compile(s, params, reg) is Err,
    ensures
        spec_compile(s, params, reg)->Err_0.len() > 0,
{
}

/// The shape of a successful compilation: one key per parsed term, in
/// order, and one plan entry per parameter term.
pub proof fn lemma_compile_shapes(
    s: Seq<char>,
    params: Seq<crate::validator::CallbackParamView>,
    reg: Seq<KeyEntryView>,
)
    requires
        spec_compile(s, params, reg) is Ok,
    ensures
        spec_parse(s) is Ok,
        spec_compile(s, params, reg)->Ok_0.0.len() == spec_parse(s)->Ok_0.len(),
        spec_compile(s, params, reg)->Ok_0.1.len() == crate::validator::spec_param_tags(
            spec_parse(s)->Ok_0,
        ).len(),
        forall|k: int|
            0 <= k < spec_parse(s)->Ok_0.len() ==> Ok::<AvKey, ErrorView>(
                spec_compile(s, params, reg)->Ok_0.0[k],
            ) == spec_lower_term(#[trigger] spec_parse(s)->Ok_0[k], reg),
{
    let expr = spec_parse(s)->Ok_0;
    lemma_lower_total(expr, reg, expr.len() as int);
}

/// Round-trip lowering law, named half: an identifier-shaped text that
/// the registry resolves parses to the single name term of that spelling,
/// and lowers to the fixed key the registry maps it to.
pub proof fn lemma_round_trip_name(n: Seq<char>, reg: Seq<KeyEntryView>, e: KeyEntryView)
    requires
        is_ident_seq(n),
        spec_lookup(reg, DiscrimView::Str(n)) == Some(e),
    ensures
        spec_parse(n) == Ok::<Seq<ParsedKeyView>, ErrorView>(
            seq![
                ParsedKeyView::Name(
                    IdentView::Ident(n),
                    (Span { start: 0, end: n.len() as usize }),
                ),
            ],
        ),
        forall|sp: Span|
            spec_lower_term(ParsedKeyView::Name(IdentView::Ident(n), sp), reg) == Ok::<
                AvKey,
                ErrorView,
            >(AvKey::Key(e.code)),
{
    lemma_scan_cont(n, 0);
    let j = scan_cont(n, 0);
    if j < n.len() {
        assert(is_ident_cont_char_at(n, j));
        assert(false);
    }
    assert(n.subrange(0, j) =~= n);
    assert(!is_ident_start_char('['));
    assert(!is_ident_start_char('{'));
    assert(!is_ident_start_char('\''));
}

/// Membership of the identifier-continuation class at an index; spelled
/// out so the contradiction in [`lemma_round_trip_name`] has a stable
/// trigger.
pub open spec fn is_ident_cont_char_at(s: Seq<char>, k: int) -> bool {
    crate::text::is_ident_cont_char(s[k])
}

/// Round-trip lowering law, bracketed half: for a decimal digit run `d`
/// denoting the keycode `c`, the text `[d]` parses to the single raw code
/// term `c`, which lowers to the fixed key `c` with no registry
/// involvement (any registry gives the same result).
pub proof fn lemma_round_trip_code(d: Seq<char>, c: u32, reg: Seq<KeyEntryView>)
    requires
        all_digits(d),
        d.len() > 0,
        digits_value(d) == c,
    ensures
        spec_parse(seq!['['] + d + seq![']']) == Ok::<Seq<ParsedKeyView>, ErrorView>(
            seq![ParsedKeyView::Code(c, (Span { start: 0, end: (d.len() + 2) as usize }))],
        ),
        forall|sp: Span|
            spec_lower_term(ParsedKeyView::Code(c, sp), reg) == Ok::<AvKey, ErrorView>(
                AvKey::Key(c),
            ),
{
    let s = seq!['['] + d + seq![']'];
    assert(s.len() == d.len() + 2);
    assert(s[0] == '[');
    assert(forall|k: int| 1 <= k < d.len() + 1 ==> s[k] == #[trigger] d[k - 1]);
    assert(s[d.len() as int + 1] == ']');
    lemma_scan_digits(s, 1);
    let j = scan_digits(s, 1);
    assert(!crate::text::is_digit_char(']'));
    if j < d.len() as int + 1 {
        assert(crate::text::is_digit_char(s[j]) == crate::text::is_digit_char(d[j - 1]));
        assert(false);
    }
    if j > d.len() as int + 1 {
        assert(crate::text::is_digit_char(s[d.len() as int + 1]));
        assert(false);
    }
    assert(j == d.len() as int + 1);
    assert(s.subrange(1, j) =~= d);
    assert(digits_value(s.subrange(1, j)) == c);
}

} // verus!
