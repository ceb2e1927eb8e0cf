//! The logic of the `context` attribute: which parameters and attributes of
//! the function stay on the context method, and which arguments the method
//! hands to the function it forwards to.
use vstd::prelude::*;
use vstd::string::StringExecFns;
use crate::derive::{is_ident, path_is_ident, AttrPath};

verus! {

/// A parameter of the function: `self` in some form, or a typed parameter
/// with the path of its type (where the type is a path) and whether its
/// pattern is a plain identifier.
pub enum FnArg {
    Receiver,
    Typed { type_path: Option<AttrPath>, binds_ident: bool },
}

/// The name of the environment callback type.
pub open spec fn env_type_name() -> Seq<char> {
    "retro_environment_t"@
}

/// The last segment of a path names the environment callback type.
pub open spec fn last_is_env(p: AttrPath) -> bool {
    p.segments.len() > 0 && p.segments@[p.segments.len() - 1].ident@ == env_type_name()
}

/// A parameter is the environment callback when its type is a path that is
/// the callback type's name, or whose last segment is.
pub open spec fn is_env_arg(arg: FnArg) -> bool {
    match arg {
        FnArg::Typed { type_path: Some(p), .. } => is_ident(p, env_type_name()) || last_is_env(p),
        _ => false,
    }
}

/// Every type path among the parameters has a segment.
pub open spec fn args_wf(args: Seq<FnArg>) -> bool {
    forall|i: int| 0 <= i < args.len() ==> match #[trigger] args[i] {
        FnArg::Typed { type_path: Some(p), .. } => p.segments.len() > 0,
        _ => true,
    }
}

/// Every attribute path has a segment.
pub open spec fn attrs_wf(attrs: Seq<AttrPath>) -> bool {
    forall|i: int| 0 <= i < attrs.len() ==> (#[trigger] attrs[i]).segments.len() > 0
}

/// The positions of the parameters among the first `n` that stay.
pub open spec fn kept_args(args: Seq<FnArg>, n: int) -> Seq<usize>
    decreases n,
{
    if n <= 0 {
        Seq::empty()
    } else if is_env_arg(args[n - 1]) {
        kept_args(args, n - 1)
    } else {
        kept_args(args, n - 1).push((n - 1) as usize)
    }
}

/// The positions of the parameters among the first `n` whose identifiers the
/// method hands on: the typed parameters that stay and whose pattern is an
/// identifier.
pub open spec fn call_positions(args: Seq<FnArg>, n: int) -> Seq<usize>
    decreases n,
{
    if n <= 0 {
        Seq::empty()
    } else {
        match args[n - 1] {
            FnArg::Typed { binds_ident: true, .. } => if is_env_arg(args[n - 1]) {
                call_positions(args, n - 1)
            } else {
                call_positions(args, n - 1).push((n - 1) as usize)
            },
            _ => call_positions(args, n - 1),
        }
    }
}

/// The positions of the attributes among the first `n` that stay: all but
/// those whose path's last segment is `context`.
pub open spec fn kept_attrs(attrs: Seq<AttrPath>, n: int) -> Seq<usize>
    decreases n,
{
    if n <= 0 {
        Seq::empty()
    } else if attrs[n - 1].segments@[attrs[n - 1].segments.len() - 1].ident@ == "context"@ {
        kept_attrs(attrs, n - 1)
    } else {
        kept_attrs(attrs, n - 1).push((n - 1) as usize)
    }
}

/// What the attribute makes of a function: the method takes `&self` and the
/// parameters at `kept_args`, keeps the attributes at `kept_attrs`, and calls
/// the function with the environment callback followed by the identifiers of
/// the parameters at `call_args`.
pub struct ContextPlan {
    pub kept_args: Vec<usize>,
    pub kept_attrs: Vec<usize>,
    pub call_args: Vec<usize>,
}

/// Whether a parameter is the environment callback.
pub fn is_env_callback(arg: &FnArg) -> (res: bool)
    requires
        match arg {
            FnArg::Typed { type_path: Some(p), .. } => p.segments.len() > 0,
            _ => true,
        },
    ensures
        res == is_env_arg(*arg),
{
    match arg {
        FnArg::Typed { type_path: Some(p), .. } => {
            let wanted = String::from_str("retro_environment_t");
            path_is_ident(p, "retro_environment_t") || p.segments[p.segments.len() - 1].ident == wanted
        },
        _ => false,
    }
}

/// The plan for a function with the given parameters and attribute paths.
pub fn context(args: &Vec<FnArg>, attrs: &Vec<AttrPath>) -> (res: ContextPlan)
    requires
        args_wf(args@),
        attrs_wf(attrs@),
    ensures
        res.kept_args@ == kept_args(args@, args.len() as int),
        res.kept_attrs@ == kept_attrs(attrs@, attrs.len() as int),
        res.call_args@ == call_positions(args@, args.len() as int),
{
    let mut kept: Vec<usize> = Vec::new();
    let mut call: Vec<usize> = Vec::new();
    let mut i: usize = 0;
    while i < args.len()
        invariant
            i <= args.len(),
            args_wf(args@),
            kept@ == kept_args(args@, i as int),
            call@ == call_positions(args@, i as int),
        decreases args.len() - i,
    {
        let arg = &args[i];
        assert(match args@[i as int] {
            FnArg::Typed { type_path: Some(p), .. } => p.segments.len() > 0,
            _ => true,
        });
        let env = is_env_callback(arg);
        if !env {
            kept.push(i);
            if let FnArg::Typed { binds_ident: true, .. } = arg {
                call.push(i);
            }
        }
        i = i + 1;
    }
    let mut kept_a: Vec<usize> = Vec::new();
    let mut k: usize = 0;
    let context_name = String::from_str("context");
    while k < attrs.len()
        invariant
            k <= attrs.len(),
            attrs_wf(attrs@),
            context_name@ == "context"@,
            kept_a@ == kept_attrs(attrs@, k as int),
        decreases attrs.len() - k,
    {
        let p = &attrs[k];
        assert(attrs@[k as int].segments.len() > 0);
        if p.segments[p.segments.len() - 1].ident != context_name {
            kept_a.push(k);
        }
        k = k + 1;
    }
    ContextPlan { kept_args: kept, kept_attrs: kept_a, call_args: call }
}

} // verus!
