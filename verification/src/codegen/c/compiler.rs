//! Options for the system C compiler and the command line they make.
use vstd::prelude::*;

use crate::text::{decimal, push_decimal_i128, push_str};

verus! {

/// Options for compiling one C file into an executable at `out_path`.
pub struct CcOpts {
    pub warnings: Option<Vec<String>>,
    pub include_dirs: Option<Vec<String>>,
    pub optimization_level: Option<u8>,
    pub link_time_optimization: bool,
    pub out_path: String,
}

/// `prefix` followed by each of `names`, one argument each.
pub open spec fn prefixed(prefix: Seq<char>, names: Seq<String>) -> Seq<Seq<char>> {
    Seq::new(names.len(), |i: int| prefix + names[i]@)
}

/// The arguments given to `cc` to compile `source` with `opts`: the source, `-o` and the output
/// path, `-W` for each warning, `-I` for each header search directory, `-O` with the optimisation
/// level when there is one and `-flto` when link time optimisation is on.
pub open spec fn cc_arg_list(source: Seq<char>, opts: CcOpts) -> Seq<Seq<char>> {
    seq![source, "-o"@, opts.out_path@] + warning_args(opts) + include_args(opts) + match opts.optimization_level {
        Some(level) => seq!["-O"@ + decimal(level as int)],
        None => Seq::empty(),
    } + if opts.link_time_optimization {
        seq!["-flto"@]
    } else {
        Seq::empty()
    }
}

/// `-W` with each warning.
pub open spec fn warning_args(opts: CcOpts) -> Seq<Seq<char>> {
    match opts.warnings {
        Some(w) => prefixed("-W"@, w@),
        None => Seq::empty(),
    }
}

/// `-I` with each header search directory.
pub open spec fn include_args(opts: CcOpts) -> Seq<Seq<char>> {
    match opts.include_dirs {
        Some(i) => prefixed("-I"@, i@),
        None => Seq::empty(),
    }
}

impl CcOpts {
    pub fn new(out_path: String) -> (r: Self)
        ensures
            r.out_path@ == out_path@,
            r.warnings is None,
            r.include_dirs is None,
            r.optimization_level is None,
            !r.link_time_optimization,
    {
        Self {
            out_path,
            warnings: None,
            include_dirs: None,
            optimization_level: None,
            link_time_optimization: false,
        }
    }

    pub fn warnings(self, warnings: Vec<String>) -> (r: Self)
        ensures
            r.warnings == Some(warnings),
            r.include_dirs == self.include_dirs,
            r.optimization_level == self.optimization_level,
            r.link_time_optimization == self.link_time_optimization,
            r.out_path == self.out_path,
    {
        CcOpts { warnings: Some(warnings), ..self }
    }

    pub fn link_time_optimization(self, value: bool) -> (r: Self)
        ensures
            r.link_time_optimization == value,
            r.warnings == self.warnings,
            r.include_dirs == self.include_dirs,
            r.optimization_level == self.optimization_level,
            r.out_path == self.out_path,
    {
        CcOpts { link_time_optimization: value, ..self }
    }
}

/// The text of each string.
pub open spec fn texts(v: Seq<String>) -> Seq<Seq<char>> {
    v.map_values(|s: String| s@)
}

fn push_prefixed(args: &mut Vec<String>, prefix: &str, names: &Vec<String>)
    ensures
        texts(final(args)@) == texts(old(args)@) + prefixed(prefix@, names@),
{
    let mut i: usize = 0;
    while i < names.len()
        invariant
            i <= names@.len(),
            texts(args@) == texts(old(args)@) + prefixed(prefix@, names@.take(i as int)),
        decreases names@.len() - i,
    {
        let mut arg = String::new();
        push_str(&mut arg, prefix);
        push_str(&mut arg, names[i].as_str());
        let ghost before = args@;
        args.push(arg);
        proof {
            assert(texts(args@) =~= texts(before).push(arg@));
            assert(prefixed(prefix@, names@.take(i + 1)) =~= prefixed(prefix@, names@.take(i as int)).push(
                prefix@ + names@[i as int]@,
            ));
            assert(arg@ =~= prefix@ + names@[i as int]@);
        }
        i += 1;
    }
    proof {
        assert(names@.take(names@.len() as int) =~= names@);
    }
}

/// The arguments for `cc` that compile `source` with `opts` (see [`cc_arg_list`]).
pub fn cc_args(source: &str, opts: &CcOpts) -> (r: Vec<String>)
    ensures
        texts(r@) == cc_arg_list(source@, *opts),
{
    let mut args: Vec<String> = Vec::new();
    args.push(source.to_owned());
    args.push("-o".to_owned());
    args.push(opts.out_path.clone());
    proof {
        assert(texts(args@) =~= seq![source@, "-o"@, opts.out_path@]);
    }
    if let Some(warnings) = &opts.warnings {
        push_prefixed(&mut args, "-W", warnings);
    } else {
        assert(texts(args@) =~= texts(args@) + warning_args(*opts));
    }
    if let Some(include_dirs) = &opts.include_dirs {
        push_prefixed(&mut args, "-I", include_dirs);
    } else {
        assert(texts(args@) =~= texts(args@) + include_args(*opts));
    }
    let ghost before_level = args@;
    if let Some(level) = opts.optimization_level {
        let mut arg = String::new();
        push_str(&mut arg, "-O");
        push_decimal_i128(&mut arg, level as i128);
        args.push(arg);
        proof {
            assert(texts(args@) =~= texts(before_level).push(arg@));
        }
    }
    let ghost before_lto = args@;
    if opts.link_time_optimization {
        args.push("-flto".to_owned());
        proof {
            assert(texts(args@) =~= texts(before_lto).push("-flto"@));
        }
    }
    proof {
        assert(texts(args@) =~= cc_arg_list(source@, *opts));
    }
    args
}

} // verus!
