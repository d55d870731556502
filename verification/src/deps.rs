//! The dependency request builder: turning the ordered token list and the
//! shared modifiers of one invocation into the ordered list of
//! dependency-addition requests, or a validation error.
//!
//! A token beginning with `+` is a feature-attachment token: it creates no
//! request of its own but merges feature names into the request of the
//! crate token just before it. All other tokens are crate tokens.

use crate::errors::AddError;
use crate::feature_set::{
    collect_feature_set, collect_features, feature_set_clone, feature_set_elems, feature_set_get,
    feature_set_insert, feature_set_len, feature_set_new, insert_all, lemma_insert_all_push,
};
use crate::features::{parse_feature, seq_views, split_features};
use vstd::prelude::*;

verus! {

/// One dependency-addition request, handed to the downstream manifest
/// editor. `crate_spec` is the crate token as the user gave it, left
/// uninterpreted here; the other fields carry the modifiers that apply to
/// this request.
#[derive(Debug)]
pub struct DepOp {
    pub crate_spec: String,
    pub rename: Option<String>,
    pub features: Option<indexmap::IndexSet<String>>,
    pub default_features: Option<bool>,
    pub optional: Option<bool>,
    pub registry: Option<String>,
    pub git: Option<String>,
    pub branch: Option<String>,
    pub rev: Option<String>,
    pub tag: Option<String>,
}

/// The mathematical content of a request: every string as its character
/// sequence, the feature set as its elements in insertion order.
pub ghost struct DepOpView {
    pub crate_spec: Seq<char>,
    pub rename: Option<Seq<char>>,
    pub features: Option<Seq<Seq<char>>>,
    pub default_features: Option<bool>,
    pub optional: Option<bool>,
    pub registry: Option<Seq<char>>,
    pub git: Option<Seq<char>>,
    pub branch: Option<Seq<char>>,
    pub rev: Option<Seq<char>>,
    pub tag: Option<Seq<char>>,
}

/// The view of an optional string.
pub open spec fn opt_view(o: Option<String>) -> Option<Seq<char>> {
    match o {
        Some(s) => Some(s@),
        None => None,
    }
}

impl View for DepOp {
    type V = DepOpView;

    open spec fn view(&self) -> DepOpView {
        DepOpView {
            crate_spec: self.crate_spec@,
            rename: opt_view(self.rename),
            features: match self.features {
                Some(fs) => Some(feature_set_elems(fs)),
                None => None,
            },
            default_features: self.default_features,
            optional: self.optional,
            registry: opt_view(self.registry),
            git: opt_view(self.git),
            branch: opt_view(self.branch),
            rev: opt_view(self.rev),
            tag: opt_view(self.tag),
        }
    }
}

/// The views of a sequence of requests.
pub open spec fn dep_views(v: Seq<DepOp>) -> Seq<DepOpView> {
    Seq::new(v.len(), |i: int| v[i]@)
}

/// The modifiers one invocation shares across all of its requests. The
/// feature list is already collected: split into names, duplicates removed.
pub ghost struct SharedModifiers {
    pub rename: Option<Seq<char>>,
    pub features: Option<Seq<Seq<char>>>,
    pub default_features: Option<bool>,
    pub optional: Option<bool>,
    pub registry: Option<Seq<char>>,
    pub git: Option<Seq<char>>,
    pub branch: Option<Seq<char>>,
    pub rev: Option<Seq<char>>,
    pub tag: Option<Seq<char>>,
}

/// A feature-attachment token: it begins with the reserved `+` marker.
pub open spec fn is_attachment_token(t: Seq<char>) -> bool {
    t.len() > 0 && t[0] == '+'
}

/// The crate tokens among `ts`, in order.
pub open spec fn crate_tokens_of(ts: Seq<Seq<char>>) -> Seq<Seq<char>>
    decreases ts.len(),
{
    if ts.len() == 0 {
        Seq::<Seq<char>>::empty()
    } else if is_attachment_token(ts[0]) {
        crate_tokens_of(ts.skip(1))
    } else {
        seq![ts[0]] + crate_tokens_of(ts.skip(1))
    }
}

/// How many crate tokens `ts` holds.
pub open spec fn num_crate_tokens(ts: Seq<Seq<char>>) -> int {
    crate_tokens_of(ts).len() as int
}

/// The request a crate token creates: the token itself as the crate
/// reference, every shared modifier cloned into the request.
pub open spec fn request_for(t: Seq<char>, m: SharedModifiers) -> DepOpView {
    DepOpView {
        crate_spec: t,
        rename: m.rename,
        features: m.features,
        default_features: m.default_features,
        optional: m.optional,
        registry: m.registry,
        git: m.git,
        branch: m.branch,
        rev: m.rev,
        tag: m.tag,
    }
}

/// Merge the feature names of an attachment token's payload into the most
/// recent request, preserving first-seen order and removing duplicates.
pub open spec fn merge_attachment(state: Seq<DepOpView>, payload: Seq<char>) -> Seq<DepOpView> {
    let prior = state.last();
    let base = match prior.features {
        Some(fs) => fs,
        None => Seq::<Seq<char>>::empty(),
    };
    let merged = insert_all(base, split_features(payload));
    state.update(
        state.len() - 1,
        DepOpView {
            crate_spec: prior.crate_spec,
            rename: prior.rename,
            features: Some(merged),
            default_features: prior.default_features,
            optional: prior.optional,
            registry: prior.registry,
            git: prior.git,
            branch: prior.branch,
            rev: prior.rev,
            tag: prior.tag,
        },
    )
}

/// One token's effect on the request list built so far.
pub open spec fn step_token(
    state: Seq<DepOpView>,
    t: Seq<char>,
    m: SharedModifiers,
    unstable: bool,
) -> Result<Seq<DepOpView>, AddError> {
    if is_attachment_token(t) {
        if !unstable {
            Err(AddError::FeatureSyntaxUnstable)
        } else if state.len() == 0 {
            Err(AddError::FeatureWithoutCrate)
        } else {
            Ok(merge_attachment(state, t.skip(1)))
        }
    } else {
        Ok(state.push(request_for(t, m)))
    }
}

/// The whole token walk, in original order, starting from `state`.
pub open spec fn run_tokens(
    state: Seq<DepOpView>,
    ts: Seq<Seq<char>>,
    m: SharedModifiers,
    unstable: bool,
) -> Result<Seq<DepOpView>, AddError>
    decreases ts.len(),
{
    if ts.len() == 0 {
        Ok(state)
    } else {
        match step_token(state, ts[0], m, unstable) {
            Ok(next) => run_tokens(next, ts.skip(1), m, unstable),
            Err(e) => Err(e),
        }
    }
}

/// What one invocation's token list and shared modifiers produce: the
/// cross-cutting validation first, then the token walk.
pub open spec fn parse_dependencies_spec(
    ts: Seq<Seq<char>>,
    m: SharedModifiers,
    unstable: bool,
) -> Result<Seq<DepOpView>, AddError> {
    if num_crate_tokens(ts) > 1 && m.git is Some {
        Err(AddError::MultipleCratesWithGit)
    } else if num_crate_tokens(ts) > 1 && m.rename is Some {
        Err(AddError::MultipleCratesWithRename)
    } else if num_crate_tokens(ts) > 1 && m.features is Some {
        Err(AddError::MultipleCratesWithFeatures)
    } else if m.git is Some && !unstable {
        Err(AddError::GitUnstable)
    } else {
        run_tokens(Seq::<DepOpView>::empty(), ts, m, unstable)
    }
}

/// The shared modifiers, as one invocation's raw inputs describe them.
pub open spec fn shared_modifiers_of(
    rename: Option<String>,
    registry: Option<String>,
    git: Option<String>,
    branch: Option<String>,
    rev: Option<String>,
    tag: Option<String>,
    default_features: Option<bool>,
    optional: Option<bool>,
    features: Option<Vec<String>>,
) -> SharedModifiers {
    SharedModifiers {
        rename: opt_view(rename),
        features: match features {
            Some(vals) => Some(collect_features(seq_views(vals@))),
            None => None,
        },
        default_features: default_features,
        optional: optional,
        registry: opt_view(registry),
        git: opt_view(git),
        branch: opt_view(branch),
        rev: opt_view(rev),
        tag: opt_view(tag),
    }
}

proof fn lemma_crate_tokens_push(ts: Seq<Seq<char>>, t: Seq<char>)
    ensures
        crate_tokens_of(ts.push(t)) == crate_tokens_of(ts) + (if is_attachment_token(t) {
            Seq::<Seq<char>>::empty()
        } else {
            seq![t]
        }),
    decreases ts.len(),
{
    if ts.len() == 0 {
        assert(ts.push(t)[0] == t);
        assert(ts.push(t).skip(1) =~= Seq::<Seq<char>>::empty());
        assert(crate_tokens_of(Seq::<Seq<char>>::empty()) == Seq::<Seq<char>>::empty());
        assert(ts =~= Seq::<Seq<char>>::empty());
        if is_attachment_token(t) {
            assert(crate_tokens_of(ts.push(t)) == crate_tokens_of(ts.push(t).skip(1)));
            assert(crate_tokens_of(ts.push(t)) =~= crate_tokens_of(ts) + Seq::<Seq<char>>::empty());
        } else {
            assert(crate_tokens_of(ts.push(t)) == seq![t] + crate_tokens_of(ts.push(t).skip(1)));
            assert(crate_tokens_of(ts.push(t)) =~= crate_tokens_of(ts) + seq![t]);
        }
    } else {
        assert(ts.push(t)[0] == ts[0]);
        assert(ts.push(t).skip(1) =~= ts.skip(1).push(t));
        lemma_crate_tokens_push(ts.skip(1), t);
        if is_attachment_token(ts[0]) {
        } else {
            assert(seq![ts[0]] + (crate_tokens_of(ts.skip(1)) + (if is_attachment_token(t) {
                Seq::<Seq<char>>::empty()
            } else {
                seq![t]
            })) =~= (seq![ts[0]] + crate_tokens_of(ts.skip(1))) + (if is_attachment_token(t) {
                Seq::<Seq<char>>::empty()
            } else {
                seq![t]
            }));
        }
    }
}

proof fn lemma_run_tokens_errors(
    state: Seq<DepOpView>,
    ts: Seq<Seq<char>>,
    m: SharedModifiers,
    unstable: bool,
)
    ensures
        run_tokens(state, ts, m, unstable) is Err ==> (run_tokens(state, ts, m, unstable) == Err::<
            Seq<DepOpView>,
            AddError,
        >(AddError::FeatureSyntaxUnstable) || run_tokens(state, ts, m, unstable) == Err::<
            Seq<DepOpView>,
            AddError,
        >(AddError::FeatureWithoutCrate)),
    decreases ts.len(),
{
    if ts.len() == 0 {
    } else {
        match step_token(state, ts[0], m, unstable) {
            Ok(next) => {
                lemma_run_tokens_errors(next, ts.skip(1), m, unstable);
            },
            Err(_) => {},
        }
    }
}

/// With zero or one crate token, neither a git source, a rename nor a shared
/// feature list ever triggers an ambiguity error.
pub proof fn lemma_no_ambiguity_with_single_crate(
    ts: Seq<Seq<char>>,
    m: SharedModifiers,
    unstable: bool,
)
    requires
        num_crate_tokens(ts) <= 1,
    ensures
        parse_dependencies_spec(ts, m, unstable) != Err::<Seq<DepOpView>, AddError>(
            AddError::MultipleCratesWithGit,
        ),
        parse_dependencies_spec(ts, m, unstable) != Err::<Seq<DepOpView>, AddError>(
            AddError::MultipleCratesWithRename,
        ),
        parse_dependencies_spec(ts, m, unstable) != Err::<Seq<DepOpView>, AddError>(
            AddError::MultipleCratesWithFeatures,
        ),
{
    lemma_run_tokens_errors(Seq::<DepOpView>::empty(), ts, m, unstable);
}

/// With two or more crate tokens, a git source, a rename and a shared
/// feature list each trigger their ambiguity error, checked in that order.
pub proof fn lemma_multi_crate_ambiguity(ts: Seq<Seq<char>>, m: SharedModifiers, unstable: bool)
    requires
        num_crate_tokens(ts) >= 2,
    ensures
        m.git is Some ==> parse_dependencies_spec(ts, m, unstable) == Err::<
            Seq<DepOpView>,
            AddError,
        >(AddError::MultipleCratesWithGit),
        m.git is None && m.rename is Some ==> parse_dependencies_spec(ts, m, unstable) == Err::<
            Seq<DepOpView>,
            AddError,
        >(AddError::MultipleCratesWithRename),
        m.git is None && m.rename is None && m.features is Some ==> parse_dependencies_spec(
            ts,
            m,
            unstable,
        ) == Err::<Seq<DepOpView>, AddError>(AddError::MultipleCratesWithFeatures),
{
}

proof fn lemma_run_tokens_order(
    state: Seq<DepOpView>,
    ts: Seq<Seq<char>>,
    m: SharedModifiers,
    unstable: bool,
)
    ensures
        run_tokens(state, ts, m, unstable) matches Ok(out) ==> {
            &&& out.len() == state.len() + crate_tokens_of(ts).len()
            &&& forall|k: int|
                0 <= k < state.len() ==> out[k].crate_spec == state[k].crate_spec
            &&& forall|k: int|
                0 <= k < crate_tokens_of(ts).len() ==> out[state.len() + k].crate_spec
                    == crate_tokens_of(ts)[k]
        },
    decreases ts.len(),
{
    if ts.len() == 0 {
    } else {
        let t = ts[0];
        match step_token(state, t, m, unstable) {
            Err(_) => {},
            Ok(next) => {
                lemma_run_tokens_order(next, ts.skip(1), m, unstable);
                if let Ok(out) = run_tokens(state, ts, m, unstable) {
                    if is_attachment_token(t) {
                        assert(next == merge_attachment(state, t.skip(1)));
                        assert(next.len() == state.len());
                        assert(forall|k: int|
                            0 <= k < state.len() ==> next[k].crate_spec == state[k].crate_spec);
                        assert(crate_tokens_of(ts) == crate_tokens_of(ts.skip(1)));
                    } else {
                        assert(next == state.push(request_for(t, m)));
                        assert(crate_tokens_of(ts) == seq![t] + crate_tokens_of(ts.skip(1)));
                        assert forall|k: int|
                            0 <= k < crate_tokens_of(ts).len() implies out[state.len()
                            + k].crate_spec == crate_tokens_of(ts)[k] by {
                            if k == 0 {
                                assert(next[state.len() as int].crate_spec == t);
                                assert(crate_tokens_of(ts)[0] == t);
                            } else {
                                assert(crate_tokens_of(ts)[k] == crate_tokens_of(ts.skip(1))[k
                                    - 1]);
                                assert(out[next.len() + (k - 1)].crate_spec == crate_tokens_of(
                                    ts.skip(1),
                                )[k - 1]);
                            }
                        }
                    }
                }
            },
        }
    }
}

/// Order preservation: a successful invocation yields exactly one request
/// per crate token, in the order the crate tokens were given, each naming
/// its crate token as the crate reference. Feature-attachment tokens add no
/// request of their own.
pub proof fn lemma_requests_preserve_crate_order(
    ts: Seq<Seq<char>>,
    m: SharedModifiers,
    unstable: bool,
    deps: Seq<DepOpView>,
)
    requires
        parse_dependencies_spec(ts, m, unstable) == Ok::<Seq<DepOpView>, AddError>(deps),
    ensures
        deps.len() == num_crate_tokens(ts),
        forall|k: int| 0 <= k < deps.len() ==> deps[k].crate_spec == crate_tokens_of(ts)[k],
{
    lemma_run_tokens_order(Seq::<DepOpView>::empty(), ts, m, unstable);
}

/// A leading feature-attachment token, with the unstable gate enabled and no
/// ambiguity rule in play, always fails with the sequencing error.
pub proof fn lemma_leading_attachment_fails(ts: Seq<Seq<char>>, m: SharedModifiers)
    requires
        ts.len() > 0,
        is_attachment_token(ts[0]),
        num_crate_tokens(ts) <= 1 || (m.git is None && m.rename is None && m.features is None),
    ensures
        parse_dependencies_spec(ts, m, true) == Err::<Seq<DepOpView>, AddError>(
            AddError::FeatureWithoutCrate,
        ),
{
    assert(step_token(Seq::<DepOpView>::empty(), ts[0], m, true) == Err::<
        Seq<DepOpView>,
        AddError,
    >(AddError::FeatureWithoutCrate));
}

/// Clone an optional string.
fn clone_opt_string(o: &Option<String>) -> (r: Option<String>)
    ensures
        r == *o,
{
    match o {
        Some(s) => Some(s.clone()),
        None => None,
    }
}

/// Decide whether a token is a feature-attachment token.
pub fn is_attachment_exec(t: &String) -> (r: bool)
    ensures
        r == is_attachment_token(t@),
{
    let n = t.as_str().unicode_len();
    if n == 0 {
        false
    } else {
        t.as_str().get_char(0) == '+'
    }
}

/// Build the ordered list of dependency-addition requests from the raw
/// ordered token list, the shared modifiers, and the normalized switches —
/// or fail with the first violated validation rule, in this order: the
/// three ambiguity rules (git, rename, shared feature list, each against
/// multiple crate tokens), the git gating rule, then per token the
/// attachment gating and sequencing rules.
#[verifier::loop_isolation(false)]
pub fn parse_dependencies(
    crates: Vec<String>,
    git: Option<String>,
    branch: Option<String>,
    rev: Option<String>,
    tag: Option<String>,
    rename: Option<String>,
    registry: Option<String>,
    default_features: Option<bool>,
    optional: Option<bool>,
    features: Option<Vec<String>>,
    unstable_options: bool,
) -> (r: Result<Vec<DepOp>, AddError>)
    ensures
        ({
            let m = shared_modifiers_of(
                rename,
                registry,
                git,
                branch,
                rev,
                tag,
                default_features,
                optional,
                features,
            );
            match r {
                Ok(deps) => parse_dependencies_spec(seq_views(crates@), m, unstable_options)
                    == Ok::<Seq<DepOpView>, AddError>(dep_views(deps@)),
                Err(e) => parse_dependencies_spec(seq_views(crates@), m, unstable_options)
                    == Err::<Seq<DepOpView>, AddError>(e),
            }
        }),
{
    let ghost m = shared_modifiers_of(
        rename,
        registry,
        git,
        branch,
        rev,
        tag,
        default_features,
        optional,
        features,
    );
    let ghost all_tokens = seq_views(crates@);

    let shared_set: Option<indexmap::IndexSet<String>> = match &features {
        Some(vals) => Some(collect_feature_set(vals)),
        None => None,
    };
    proof {
        assert(match shared_set {
            Some(s) => m.features == Some(feature_set_elems(s)),
            None => m.features is None,
        });
    }

    let mut crate_count: usize = 0;
    let mut i: usize = 0;
    proof {
        assert(all_tokens.take(0) =~= Seq::<Seq<char>>::empty());
    }
    while i < crates.len()
        invariant
            i <= crates.len(),
            crate_count <= i,
            crate_count == num_crate_tokens(all_tokens.take(i as int)),
        decreases crates.len() - i,
    {
        proof {
            lemma_crate_tokens_push(all_tokens.take(i as int), all_tokens[i as int]);
            assert(all_tokens.take(i as int).push(all_tokens[i as int]) =~= all_tokens.take(
                i as int + 1,
            ));
        }
        if !is_attachment_exec(&crates[i]) {
            crate_count = crate_count + 1;
        }
        i = i + 1;
    }
    proof {
        assert(all_tokens.take(crates@.len() as int) =~= all_tokens);
    }

    if crate_count > 1 && git.is_some() {
        return Err(AddError::MultipleCratesWithGit);
    }
    if crate_count > 1 && rename.is_some() {
        return Err(AddError::MultipleCratesWithRename);
    }
    if crate_count > 1 && features.is_some() {
        return Err(AddError::MultipleCratesWithFeatures);
    }
    if git.is_some() && !unstable_options {
        return Err(AddError::GitUnstable);
    }

    let mut deps: Vec<DepOp> = Vec::new();
    let mut i: usize = 0;
    proof {
        assert(all_tokens.skip(0) =~= all_tokens);
        assert(dep_views(deps@) =~= Seq::<DepOpView>::empty());
    }
    while i < crates.len()
        invariant
            i <= crates.len(),
            run_tokens(Seq::<DepOpView>::empty(), all_tokens, m, unstable_options) == run_tokens(
                dep_views(deps@),
                all_tokens.skip(i as int),
                m,
                unstable_options,
            ),
        decreases crates.len() - i,
    {
        let ghost state = dep_views(deps@);
        let ghost tok = all_tokens[i as int];
        proof {
            assert(all_tokens.skip(i as int)[0] == tok);
            assert(all_tokens.skip(i as int).skip(1) =~= all_tokens.skip(i as int + 1));
        }
        if is_attachment_exec(&crates[i]) {
            if !unstable_options {
                return Err(AddError::FeatureSyntaxUnstable);
            }
            if deps.len() == 0 {
                return Err(AddError::FeatureWithoutCrate);
            }
            let tok_len = crates[i].as_str().unicode_len();
            let payload = crates[i].as_str().substring_char(1, tok_len);
            proof {
                assert(payload@ =~= tok.skip(1));
            }
            let parts = parse_feature(payload);
            let prior = deps.pop().unwrap();
            let ghost prior_view = prior@;
            let DepOp {
                crate_spec: p_crate,
                rename: p_rename,
                features: p_features,
                default_features: p_default,
                optional: p_optional,
                registry: p_registry,
                git: p_git,
                branch: p_branch,
                rev: p_rev,
                tag: p_tag,
            } = prior;
            let mut fs = match p_features {
                Some(fs) => fs,
                None => feature_set_new(),
            };
            let ghost base = feature_set_elems(fs);
            proof {
                assert(base == match prior_view.features {
                    Some(f) => f,
                    None => Seq::<Seq<char>>::empty(),
                });
            }
            let ghost frag = split_features(tok.skip(1));
            let mut j: usize = 0;
            proof {
                assert(frag.take(0) =~= Seq::<Seq<char>>::empty());
            }
            while j < parts.len()
                invariant
                    j <= parts.len(),
                    feature_set_elems(fs) == insert_all(base, frag.take(j as int)),
                decreases parts.len() - j,
            {
                let part = parts[j].clone();
                proof {
                    assert(part@ == seq_views(parts@)[j as int]);
                    lemma_insert_all_push(base, frag.take(j as int), frag[j as int]);
                    assert(frag.take(j as int).push(frag[j as int]) =~= frag.take(j as int + 1));
                }
                feature_set_insert(&mut fs, part);
                j = j + 1;
            }
            proof {
                assert(frag.take(parts@.len() as int) =~= frag);
            }
            let merged = DepOp {
                crate_spec: p_crate,
                rename: p_rename,
                features: Some(fs),
                default_features: p_default,
                optional: p_optional,
                registry: p_registry,
                git: p_git,
                branch: p_branch,
                rev: p_rev,
                tag: p_tag,
            };
            let ghost deps_before = deps@;
            deps.push(merged);
            proof {
                assert(merged@ == merge_attachment(state, tok.skip(1)).last());
                assert(dep_views(deps@) =~= merge_attachment(state, tok.skip(1)));
            }
        } else {
            let dep = DepOp {
                crate_spec: crates[i].clone(),
                rename: clone_opt_string(&rename),
                features: match &shared_set {
                    Some(s) => Some(feature_set_clone(s)),
                    None => None,
                },
                default_features: default_features,
                optional: optional,
                registry: clone_opt_string(&registry),
                git: clone_opt_string(&git),
                branch: clone_opt_string(&branch),
                rev: clone_opt_string(&rev),
                tag: clone_opt_string(&tag),
            };
            proof {
                assert(dep@ == request_for(tok, m));
            }
            deps.push(dep);
            proof {
                assert(dep_views(deps@) =~= state.push(request_for(tok, m)));
            }
        }
        i = i + 1;
    }
    proof {
        assert(all_tokens.skip(crates@.len() as int) =~= Seq::<Seq<char>>::empty());
    }
    Ok(deps)
}

impl DepOp {
    /// The request's feature names, in insertion order, as plain strings;
    /// nothing when the request carries no feature set at all.
    #[verifier::loop_isolation(false)]
    pub fn feature_names(&self) -> (r: Option<Vec<String>>)
        ensures
            match self.features {
                Some(fs) => r matches Some(v) && seq_views(v@) == feature_set_elems(fs),
                None => r is None,
            },
    {
        match &self.features {
            None => None,
            Some(fs) => {
                let n = feature_set_len(fs);
                let mut v: Vec<String> = Vec::new();
                let mut i: usize = 0;
                proof {
                    assert(seq_views(v@) =~= feature_set_elems(*fs).take(0));
                }
                while i < n
                    invariant
                        i <= n,
                        n == feature_set_elems(*fs).len(),
                        seq_views(v@) == feature_set_elems(*fs).take(i as int),
                    decreases n - i,
                {
                    let item = feature_set_get(fs, i).clone();
                    v.push(item);
                    proof {
                        assert(seq_views(v@) =~= feature_set_elems(*fs).take(i as int + 1));
                    }
                    i = i + 1;
                }
                proof {
                    assert(feature_set_elems(*fs).take(n as int) =~= feature_set_elems(*fs));
                }
                Some(v)
            },
        }
    }
}

} // verus!

