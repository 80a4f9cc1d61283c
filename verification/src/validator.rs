//! The binding validator.
//!
//! A parsed expression's `{tag}` terms must line up, one to one and in
//! order, with the callback's declared extra arguments. Two independent
//! checks both have to pass:
//!
//! * *tag validity* — every tag resolves in the key-parameter catalog;
//!   all unknown tags are reported together;
//! * *arity and naming correspondence* — with `P` parameter terms and `A`
//!   declared arguments: `A > P` reports each excess argument; `A < P`
//!   with `A == 0` reports one aggregate error; `A < P` with `A > 0`
//!   reports each missing position; `A == P` demands that each declared
//!   argument's type name equal its same-index tag, reporting every
//!   mismatch.
//!
//! All errors from both checks are aggregated and returned together, so
//! one pass surfaces the complete list of fixes. On success the result is
//! the assignment plan: each parameter position paired with the key class
//! its argument slot binds to.

use vstd::prelude::*;
use vstd::string::*;

use crate::diag::ErrorView;
use crate::diag::KeybindError;
use crate::diag::Span;
use crate::key::AvKeyParameter;
use crate::parser::ParsedKey;
use crate::parser::ParsedKeyView;
use crate::parser::ParsedKeybind;
use crate::text::str_eq;

verus! {

/// One declared extra argument of the callback a keybind is attached to:
/// its name, its declared type identifier, and the span of its
/// declaration. Arguments are listed beyond any leading state argument.
#[derive(Debug, Clone)]
pub struct CallbackParam {
    /// The argument's declared name.
    pub name: String,
    /// The argument's declared type identifier, expected to equal a
    /// parameter tag.
    pub ty: String,
    /// Where the argument is declared.
    pub span: Span,
}

/// Ghost shape of a [`CallbackParam`].
pub struct CallbackParamView {
    /// View of the argument name.
    pub name: Seq<char>,
    /// View of the declared type identifier.
    pub ty: Seq<char>,
    /// The declaration span.
    pub span: Span,
}

impl View for CallbackParam {
    type V = CallbackParamView;

    open spec fn view(&self) -> CallbackParamView {
        CallbackParamView { name: self.name@, ty: self.ty@, span: self.span }
    }
}

/// The validator's success value: each parameter position (equally: each
/// extra-argument slot) paired with the key class bound at it.
pub type AssignmentPlan = Vec<(usize, AvKeyParameter)>;

/// The views of a declared-argument list.
pub open spec fn params_view(ps: Seq<CallbackParam>) -> Seq<CallbackParamView> {
    ps.map_values(|q: CallbackParam| q@)
}

/// The tags of the parameter terms among the first `n` terms, in order.
pub open spec fn tags_up_to(expr: Seq<ParsedKeyView>, n: int) -> Seq<Seq<char>>
    decreases n,
{
    if n <= 0 {
        Seq::empty()
    } else {
        tags_up_to(expr, n - 1) + (match expr[n - 1] {
            ParsedKeyView::Parameter(t, _) => seq![t],
            _ => Seq::empty(),
        })
    }
}

/// The tags of an expression's parameter terms, in order of appearance.
pub open spec fn spec_param_tags(expr: Seq<ParsedKeyView>) -> Seq<Seq<char>> {
    tags_up_to(expr, expr.len() as int)
}

/// The unknown-tag errors among the first `n` terms, in order.
pub open spec fn tag_errors_up_to(expr: Seq<ParsedKeyView>, n: int) -> Seq<ErrorView>
    decreases n,
{
    if n <= 0 {
        Seq::empty()
    } else {
        tag_errors_up_to(expr, n - 1) + (match expr[n - 1] {
            ParsedKeyView::Parameter(t, sp) => if AvKeyParameter::resolve_tag(t) is None {
                seq![ErrorView::UnknownParameterTag { span: sp, tag: t }]
            } else {
                Seq::empty()
            },
            _ => Seq::empty(),
        })
    }
}

/// The tag-validity verdict on a whole expression: one error per
/// parameter term whose tag the catalog does not know, in order.
pub open spec fn spec_tag_errors(expr: Seq<ParsedKeyView>) -> Seq<ErrorView> {
    tag_errors_up_to(expr, expr.len() as int)
}

/// No unknown-tag error is reported exactly when every parameter term's
/// tag resolves; and then every collected tag resolves.
pub proof fn lemma_tag_errors_empty(expr: Seq<ParsedKeyView>, n: int)
    requires
        n <= expr.len(),
    ensures
        (tag_errors_up_to(expr, n).len() == 0) <==> (forall|k: int|
            0 <= k < n ==> match #[trigger] expr[k] {
                ParsedKeyView::Parameter(t, _) => AvKeyParameter::resolve_tag(t) is Some,
                _ => true,
            }),
        tag_errors_up_to(expr, n).len() == 0 ==> forall|m: int|
            0 <= m < tags_up_to(expr, n).len() ==> AvKeyParameter::resolve_tag(
                #[trigger] tags_up_to(expr, n)[m],
            ) is Some,
    decreases n,
{
    if n > 0 {
        lemma_tag_errors_empty(expr, n - 1);
    }
}

/// The type-correspondence errors among the first `n` argument positions
/// (used when the counts agree): one per position whose declared type
/// name differs from its tag.
pub open spec fn type_errors_up_to(
    tags: Seq<Seq<char>>,
    params: Seq<CallbackParamView>,
    n: int,
) -> Seq<ErrorView>
    decreases n,
{
    if n <= 0 {
        Seq::empty()
    } else {
        type_errors_up_to(tags, params, n - 1) + (if params[n - 1].ty == tags[n - 1] {
            Seq::empty()
        } else {
            seq![
                ErrorView::TypeCorrespondence {
                    span: params[n - 1].span,
                    expected: tags[n - 1],
                    actual: params[n - 1].ty,
                },
            ]
        })
    }
}

/// The excess-argument errors for declared-argument positions `p..n`:
/// one per argument beyond the expression's parameter terms.
pub open spec fn excess_errors_up_to(
    params: Seq<CallbackParamView>,
    p: int,
    n: int,
) -> Seq<ErrorView>
    decreases n - p,
{
    if n <= p {
        Seq::empty()
    } else {
        excess_errors_up_to(params, p, n - 1) + seq![
            ErrorView::ExcessParameter { span: params[n - 1].span, name: params[n - 1].name },
        ]
    }
}

/// The missing-argument errors for parameter positions `a..n`: one per
/// parameter term with no declared argument, naming the expected tag.
pub open spec fn missing_errors_up_to(tags: Seq<Seq<char>>, a: int, n: int) -> Seq<ErrorView>
    decreases n - a,
{
    if n <= a {
        Seq::empty()
    } else {
        missing_errors_up_to(tags, a, n - 1) + seq![
            ErrorView::MissingParameter { position: (n - 1) as usize, tag: tags[n - 1] },
        ]
    }
}

/// The arity-and-naming verdict on an expression against a declared
/// argument list, by the case split on `P` parameter terms and `A`
/// declared arguments described in the module documentation.
pub open spec fn spec_sig_errors(
    expr: Seq<ParsedKeyView>,
    params: Seq<CallbackParamView>,
) -> Seq<ErrorView> {
    let tags = spec_param_tags(expr);
    let p = tags.len() as int;
    let a = params.len() as int;
    if a > p {
        excess_errors_up_to(params, p, a)
    } else if a < p && a == 0 {
        seq![ErrorView::ArityMismatch { needed: p as usize }]
    } else if a < p {
        missing_errors_up_to(tags, a, p)
    } else {
        type_errors_up_to(tags, params, a)
    }
}

/// Everything validation has to say about an expression and a declared
/// argument list: the tag-validity errors, then the arity-and-naming
/// errors.
pub open spec fn spec_validation_errors(
    expr: Seq<ParsedKeyView>,
    params: Seq<CallbackParamView>,
) -> Seq<ErrorView> {
    spec_tag_errors(expr) + spec_sig_errors(expr, params)
}

/// The assignment plan of a valid expression: position `k` bound to the
/// class its tag resolves to.
pub open spec fn spec_plan(expr: Seq<ParsedKeyView>) -> Seq<(usize, AvKeyParameter)> {
    let tags = spec_param_tags(expr);
    Seq::new(
        tags.len(),
        |k: int| ((k as usize), AvKeyParameter::resolve_tag(tags[k])->Some_0),
    )
}

impl ParsedKeybind {
    /// Returns the tags of the expression's parameter terms, in order of
    /// appearance.
    pub fn parameters_present(&self) -> (r: Vec<String>)
        ensures
            r@.map_values(|t: String| t@) == spec_param_tags(self@),
    {
        let n = self.0.len();
        let mut out: Vec<String> = Vec::new();
        let mut i: usize = 0;
        while i < n
            invariant
                n == self.0.len(),
                i <= n,
                out@.map_values(|t: String| t@) =~= tags_up_to(self@, i as int),
            decreases n - i,
        {
            match &self.0[i] {
                ParsedKey::Parameter(t, _) => {
                    let tc = t.clone();
                    out.push(tc);
                },
                _ => {},
            }
            proof {
                assert(self@[i as int] == self.0@[i as int]@);
                assert(out@.map_values(|t: String| t@) =~= tags_up_to(self@, i as int + 1));
            }
            i += 1;
        }
        proof {
            assert(out@.map_values(|t: String| t@) =~= spec_param_tags(self@));
        }
        out
    }

    /// Tag validity: collects one error for every parameter term whose
    /// tag is not in the catalog, in order; an empty result means every
    /// tag resolves.
    pub fn validate_parameter_names(&self) -> (r: Vec<KeybindError>)
        ensures
            r@.map_values(|e: KeybindError| e@) == spec_tag_errors(self@),
    {
        let n = self.0.len();
        let mut out: Vec<KeybindError> = Vec::new();
        let mut i: usize = 0;
        while i < n
            invariant
                n == self.0.len(),
                i <= n,
                out@.map_values(|e: KeybindError| e@) =~= tag_errors_up_to(self@, i as int),
            decreases n - i,
        {
            match &self.0[i] {
                ParsedKey::Parameter(t, sp) => {
                    match AvKeyParameter::try_from(t.as_str()) {
                        Ok(_) => {},
                        Err(tag) => {
                            out.push(KeybindError::UnknownParameterTag { span: *sp, tag });
                        },
                    }
                },
                _ => {},
            }
            proof {
                assert(self@[i as int] == self.0@[i as int]@);
                assert(out@.map_values(|e: KeybindError| e@) =~= tag_errors_up_to(
                    self@,
                    i as int + 1,
                ));
            }
            i += 1;
        }
        proof {
            assert(out@.map_values(|e: KeybindError| e@) =~= spec_tag_errors(self@));
        }
        out
    }

    /// The declared type identifiers of the argument list, in order.
    pub fn key_parameter_types_delcared_in_fn(&self, params: &Vec<CallbackParam>) -> (r: Vec<
        String,
    >)
        ensures
            r@.map_values(|t: String| t@) == params_view(params@).map_values(
                |q: CallbackParamView| q.ty,
            ),
    {
        let n = params.len();
        let mut out: Vec<String> = Vec::new();
        let mut i: usize = 0;
        while i < n
            invariant
                n == params.len(),
                i <= n,
                out@.len() == i,
                forall|k: int| 0 <= k < i ==> out@.map_values(|t: String| t@)[k] == params@[k]@.ty,
            decreases n - i,
        {
            let ty = params[i].ty.clone();
            out.push(ty);
            i += 1;
        }
        proof {
            assert(out@.map_values(|t: String| t@) =~= params_view(params@).map_values(
                |q: CallbackParamView| q.ty,
            ));
        }
        out
    }

    /// Arity and naming correspondence: the second validation check,
    /// returning all its errors in order; an empty result means the
    /// declared arguments line up one to one with the parameter terms and
    /// agree with them on type names.
    pub fn validate_func_sign_against_key_params(&self, params: &Vec<CallbackParam>) -> (r: Vec<
        KeybindError,
    >)
        ensures
            r@.map_values(|e: KeybindError| e@) == spec_sig_errors(self@, params_view(params@)),
    {
        let tags = self.parameters_present();
        let p = tags.len();
        let a = params.len();
        let mut out: Vec<KeybindError> = Vec::new();
        if a > p {
            let mut k: usize = p;
            while k < a
                invariant
                    p <= k <= a,
                    a == params.len(),
                    p == spec_param_tags(self@).len(),
                    out@.map_values(|e: KeybindError| e@) =~= excess_errors_up_to(
                        params_view(params@),
                        p as int,
                        k as int,
                    ),
                decreases a - k,
            {
                let name = params[k].name.clone();
                out.push(KeybindError::ExcessParameter { span: params[k].span, name });
                proof {
                    assert(params_view(params@)[k as int] == params@[k as int]@);
                    assert(out@.map_values(|e: KeybindError| e@) =~= excess_errors_up_to(
                        params_view(params@),
                        p as int,
                        k as int + 1,
                    ));
                }
                k += 1;
            }
        } else if a < p && a == 0 {
            out.push(KeybindError::ArityMismatch { needed: p });
            proof {
                assert(out@.map_values(|e: KeybindError| e@) =~= spec_sig_errors(
                    self@,
                    params_view(params@),
                ));
            }
        } else if a < p {
            let mut m: usize = a;
            while m < p
                invariant
                    a <= m <= p,
                    a == params.len(),
                    p == tags.len(),
                    tags@.map_values(|t: String| t@) == spec_param_tags(self@),
                    out@.map_values(|e: KeybindError| e@) =~= missing_errors_up_to(
                        spec_param_tags(self@),
                        a as int,
                        m as int,
                    ),
                decreases p - m,
            {
                let tag = tags[m].clone();
                out.push(KeybindError::MissingParameter { position: m, tag });
                proof {
                    assert(tags@[m as int]@ == spec_param_tags(self@)[m as int]);
                    assert(out@.map_values(|e: KeybindError| e@) =~= missing_errors_up_to(
                        spec_param_tags(self@),
                        a as int,
                        m as int + 1,
                    ));
                }
                m += 1;
            }
        } else {
            let mut k: usize = 0;
            while k < a
                invariant
                    0 <= k <= a,
                    a == params.len(),
                    a == tags.len(),
                    tags@.map_values(|t: String| t@) == spec_param_tags(self@),
                    out@.map_values(|e: KeybindError| e@) =~= type_errors_up_to(
                        spec_param_tags(self@),
                        params_view(params@),
                        k as int,
                    ),
                decreases a - k,
            {
                if !str_eq(params[k].ty.as_str(), tags[k].as_str()) {
                    let expected = tags[k].clone();
                    let actual = params[k].ty.clone();
                    out.push(
                        KeybindError::TypeCorrespondence {
                            span: params[k].span,
                            expected,
                            actual,
                        },
                    );
                }
                proof {
                    assert(out@.map_values(|e: KeybindError| e@) =~= type_errors_up_to(
                        spec_param_tags(self@),
                        params_view(params@),
                        k as int + 1,
                    ));
                }
                k += 1;
            }
        }
        proof {
            assert(out@.map_values(|e: KeybindError| e@) =~= spec_sig_errors(
                self@,
                params_view(params@),
            ));
        }
        out
    }

    /// Validates the expression against the declared argument list: tag
    /// validity and arity correspondence together. Either returns every
    /// error found, in order — never just the first — or, when there is
    /// none, the assignment plan pairing each parameter position with its
    /// resolved key class.
    pub fn validate(&self, params: &Vec<CallbackParam>) -> (r: Result<
        AssignmentPlan,
        Vec<KeybindError>,
    >)
        ensures
            match r {
                Ok(plan) => {
                    &&& spec_validation_errors(self@, params_view(params@)).len() == 0
                    &&& plan@ == spec_plan(self@)
                },
                Err(errs) => {
                    &&& errs@.map_values(|e: KeybindError| e@) == spec_validation_errors(
                        self@,
                        params_view(params@),
                    )
                    &&& errs@.len() > 0
                },
            },
    {
        let mut errs = self.validate_parameter_names();
        let mut sig = self.validate_func_sign_against_key_params(params);
        let tags = self.parameters_present();
        proof {
            assert(errs@.map_values(|e: KeybindError| e@) + sig@.map_values(
                |e: KeybindError| e@,
            ) =~= spec_validation_errors(self@, params_view(params@)));
        }
        errs.append(&mut sig);
        proof {
            assert(errs@.map_values(|e: KeybindError| e@) =~= spec_validation_errors(
                self@,
                params_view(params@),
            ));
        }
        if errs.len() > 0 {
            return Err(errs);
        }
        let mut plan: AssignmentPlan = Vec::new();
        let n = tags.len();
        proof {
            lemma_tag_errors_empty(self@, self@.len() as int);
        }
        let mut k: usize = 0;
        while k < n
            invariant
                0 <= k <= n,
                n == tags.len(),
                tags@.map_values(|t: String| t@) == spec_param_tags(self@),
                forall|m: int|
                    0 <= m < n ==> AvKeyParameter::resolve_tag(
                        #[trigger] spec_param_tags(self@)[m],
                    ) is Some,
                plan@ =~= spec_plan(self@).take(k as int),
            decreases n - k,
        {
            match AvKeyParameter::try_from(tags[k].as_str()) {
                Ok(kind) => {
                    plan.push((k, kind));
                    proof {
                        assert(tags@[k as int]@ == spec_param_tags(self@)[k as int]);
                        assert(plan@ =~= spec_plan(self@).take(k as int + 1));
                    }
                },
                Err(_) => {
                    proof {
                        assert(tags@[k as int]@ == spec_param_tags(self@)[k as int]);
                        assert(false);
                    }
                    return Err(Vec::new());
                },
            }
            k += 1;
        }
        proof {
            assert(plan@ =~= spec_plan(self@));
        }
        Ok(plan)
    }
}

} // verus!
