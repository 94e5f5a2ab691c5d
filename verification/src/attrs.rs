//! Argument decoding for the attribute command.
//!
//! The command takes long options naming inode attributes — with the value
//! after an equals sign, in the next argument, or defaulting to one for a
//! bare switch — a switch clearing every attribute, and the files to touch.
//! Which option names exist comes from the caller as a list.

use crate::iostats::{scan_to_char, spec_scan_len};
use vstd::prelude::*;

verus! {

/// A parsed attribute command line.
#[derive(Debug, PartialEq, Eq)]
pub struct SetattrArgs {
    /// Clear every attribute instead of setting any.
    pub remove_all: bool,
    /// Attribute names with the values to set.
    pub opts: Vec<(String, String)>,
    /// The files to apply the change to.
    pub files: Vec<String>,
}

/// The mathematical value of a parsed command line.
pub struct SetattrArgsView {
    pub remove_all: bool,
    pub opts: Seq<(Seq<char>, Seq<char>)>,
    pub files: Seq<Seq<char>>,
}

impl View for SetattrArgs {
    type V = SetattrArgsView;

    open spec fn view(&self) -> SetattrArgsView {
        SetattrArgsView {
            remove_all: self.remove_all,
            opts: self.opts@.map_values(|p: (String, String)| (p.0@, p.1@)),
            files: self.files@.map_values(|f: String| f@),
        }
    }
}

/// Why an attribute command line is rejected.
#[derive(Debug, PartialEq, Eq)]
pub enum SetattrError {
    /// The caller asked for the usage text.
    Help,
    /// An option name no attribute owns, with the name.
    InvalidOption(String),
    /// No file was given.
    NoFiles,
}

/// The mathematical value of a rejection.
pub enum SetattrErrorView {
    Help,
    InvalidOption(Seq<char>),
    NoFiles,
}

impl View for SetattrError {
    type V = SetattrErrorView;

    open spec fn view(&self) -> SetattrErrorView {
        match self {
            SetattrError::Help => SetattrErrorView::Help,
            SetattrError::InvalidOption(name) => SetattrErrorView::InvalidOption(name@),
            SetattrError::NoFiles => SetattrErrorView::NoFiles,
        }
    }
}

/// The values of the argument list.
pub open spec fn args_view(s: Seq<String>) -> Seq<Seq<char>> {
    s.map_values(|x: String| x@)
}

/// Whether the option list holds this name.
pub open spec fn spec_has_name(valid: Seq<Seq<char>>, name: Seq<char>) -> bool {
    exists|k: int| 0 <= k < valid.len() && valid[k] == name
}

/// Whether an argument starts an option: a leading dash on anything but the
/// bare dash.
pub open spec fn spec_dashed(arg: Seq<char>) -> bool {
    arg.len() > 0 && arg[0] == '-' && arg != seq!['-']
}

/// What the arguments from `i` on parse to, folded onto `acc`: see the module
/// text for the shapes one argument can take.
pub open spec fn spec_setattr_scan(
    argv: Seq<Seq<char>>,
    valid: Seq<Seq<char>>,
    i: int,
    acc: SetattrArgsView,
) -> Result<SetattrArgsView, SetattrErrorView>
    decreases argv.len() - i,
{
    if i < 0 || i >= argv.len() {
        Ok(acc)
    } else {
        let arg = argv[i];
        if arg == "-h"@ || arg == "--help"@ {
            Err(SetattrErrorView::Help)
        } else if arg == "--remove-all"@ {
            spec_setattr_scan(
                argv,
                valid,
                i + 1,
                SetattrArgsView { remove_all: true, ..acc },
            )
        } else if arg.len() >= 2 && arg[0] == '-' && arg[1] == '-' {
            let rest = arg.skip(2);
            let eq = spec_scan_len(rest, '=') as int;
            let (name, value, consumed): (Seq<char>, Seq<char>, int) = if eq < rest.len() {
                (rest.take(eq), rest.skip(eq + 1), 1)
            } else if i + 1 < argv.len() && !(argv[i + 1].len() > 0 && argv[i + 1][0] == '-') {
                (rest, argv[i + 1], 2)
            } else {
                (rest, seq!['1'], 1)
            };
            if spec_has_name(valid, name) {
                spec_setattr_scan(
                    argv,
                    valid,
                    i + consumed,
                    SetattrArgsView { opts: acc.opts.push((name, value)), ..acc },
                )
            } else {
                Err(SetattrErrorView::InvalidOption(name))
            }
        } else if spec_dashed(arg) {
            Err(SetattrErrorView::InvalidOption(arg))
        } else {
            spec_setattr_scan(
                argv,
                valid,
                i + 1,
                SetattrArgsView { files: acc.files.push(arg), ..acc },
            )
        }
    }
}

/// The empty accumulator the scan starts from.
pub open spec fn spec_setattr_empty() -> SetattrArgsView {
    SetattrArgsView { remove_all: false, opts: Seq::empty(), files: Seq::empty() }
}

/// What a whole attribute command line parses to: the scan of everything
/// after the command's own name.
pub open spec fn spec_parse_setattr(argv: Seq<Seq<char>>, valid: Seq<Seq<char>>) -> Result<
    SetattrArgsView,
    SetattrErrorView,
> {
    spec_setattr_scan(argv, valid, 1, spec_setattr_empty())
}

/// Whether the option list holds this name.
fn has_name(valid: &Vec<String>, name: &String) -> (r: bool)
    ensures
        r == spec_has_name(args_view(valid@), name@),
{
    let len = valid.len();
    let mut i: usize = 0;
    while i < len
        invariant
            i <= len,
            len == valid@.len(),
            forall|k: int| 0 <= k < i ==> args_view(valid@)[k] != name@,
        decreases len - i,
    {
        if valid[i].eq(name) {
            assert(args_view(valid@)[i as int] == name@);
            return true;
        }
        i = i + 1;
    }
    false
}

/// Parse the arguments of an attribute command: everything after the
/// command's own name, against the given option names.
pub fn parse_setattr_args(argv: &Vec<String>, valid_opts: &Vec<String>) -> (r: Result<
    SetattrArgs,
    SetattrError,
>)
    ensures
        match r {
            Ok(args) => spec_parse_setattr(args_view(argv@), args_view(valid_opts@)) == Ok::<
                SetattrArgsView,
                SetattrErrorView,
            >(args@),
            Err(e) => spec_parse_setattr(args_view(argv@), args_view(valid_opts@)) == Err::<
                SetattrArgsView,
                SetattrErrorView,
            >(e@),
        },
{
    let ghost argv_v = args_view(argv@);
    let ghost valid_v = args_view(valid_opts@);
    let mut acc = SetattrArgs { remove_all: false, opts: Vec::new(), files: Vec::new() };
    let n = argv.len();
    let mut i: usize = 1;
    proof {
        assert(acc@.opts =~= spec_setattr_empty().opts);
        assert(acc@.files =~= spec_setattr_empty().files);
        assert(acc@ == spec_setattr_empty());
    }
    while i < n
        invariant
            1 <= i,
            i <= n || i == n + 1,
            n == argv@.len(),
            argv_v == args_view(argv@),
            valid_v == args_view(valid_opts@),
            spec_parse_setattr(argv_v, valid_v) == spec_setattr_scan(argv_v, valid_v, i as int, acc@),
        decreases n - i,
    {
        let ghost pre = acc@;
        let arg = &argv[i];
        proof {
            assert(argv_v[i as int] == arg@);
        }
        if arg.eq(&String::from_str("-h")) || arg.eq(&String::from_str("--help")) {
            return Err(SetattrError::Help);
        } else if arg.eq(&String::from_str("--remove-all")) {
            acc.remove_all = true;
            proof {
                assert(acc@ == (SetattrArgsView { remove_all: true, ..pre }));
            }
            i = i + 1;
        } else {
            let arg_len = arg.as_str().unicode_len();
            if arg_len >= 2 && arg.as_str().get_char(0) == '-' && arg.as_str().get_char(1) == '-' {
                let rest = arg.as_str().substring_char(2, arg_len).to_owned();
                proof {
                    assert(rest@ =~= arg@.skip(2));
                }
                let rest_len = arg_len - 2;
                let eq = scan_to_char(&rest, '=');
                let (name, value, consumed): (String, String, usize) = if eq < rest_len {
                    let name = rest.as_str().substring_char(0, eq).to_owned();
                    let value = rest.as_str().substring_char(eq + 1, rest_len).to_owned();
                    proof {
                        assert(name@ =~= rest@.take(eq as int));
                        assert(value@ =~= rest@.skip(eq as int + 1));
                    }
                    (name, value, 1)
                } else {
                    let take_next = if i + 1 < n {
                        let next = &argv[i + 1];
                        let next_len = next.as_str().unicode_len();
                        !(next_len > 0 && next.as_str().get_char(0) == '-')
                    } else {
                        false
                    };
                    proof {
                        if i + 1 < n {
                            assert(argv_v[i as int + 1] == argv@[i as int + 1]@);
                        }
                    }
                    if take_next {
                        let value = argv[i + 1].clone();
                        (rest, value, 2)
                    } else {
                        proof {
                            reveal_strlit("1");
                            assert("1"@ =~= seq!['1']);
                        }
                        (rest, String::from_str("1"), 1)
                    }
                };
                if has_name(valid_opts, &name) {
                    acc.opts.push((name, value));
                    proof {
                        assert(acc@.opts =~= pre.opts.push(
                            (acc.opts@.last().0@, acc.opts@.last().1@),
                        ));
                        assert(acc@ == (SetattrArgsView {
                            opts: acc@.opts,
                            ..pre
                        }));
                    }
                    i = i + consumed;
                } else {
                    return Err(SetattrError::InvalidOption(name));
                }
            } else if arg_len > 0 && arg.as_str().get_char(0) == '-' {
                proof {
                    if arg@.len() == 1 {
                        assert(arg@ =~= seq!['-']);
                    }
                }
                if arg_len == 1 {
                    acc.files.push(arg.clone());
                    proof {
                        assert(acc@.files =~= pre.files.push(acc.files@.last()@));
                        assert(acc@ == (SetattrArgsView { files: acc@.files, ..pre }));
                    }
                    i = i + 1;
                } else {
                    proof {
                        assert(spec_dashed(arg@));
                    }
                    return Err(SetattrError::InvalidOption(arg.clone()));
                }
            } else {
                acc.files.push(arg.clone());
                proof {
                    assert(acc@.files =~= pre.files.push(acc.files@.last()@));
                    assert(acc@ == (SetattrArgsView { files: acc@.files, ..pre }));
                }
                i = i + 1;
            }
        }
    }
    Ok(acc)
}

/// What the attribute command decides from its arguments: the parsed options
/// and files, rejecting a command line that names no file.
pub open spec fn spec_cmd_setattr(argv: Seq<Seq<char>>, valid: Seq<Seq<char>>) -> Result<
    SetattrArgsView,
    SetattrErrorView,
> {
    match spec_parse_setattr(argv, valid) {
        Ok(args) => if args.files.len() == 0 {
            Err(SetattrErrorView::NoFiles)
        } else {
            Ok(args)
        },
        Err(e) => Err(e),
    }
}

/// Decode an attribute command line, which must name at least one file.  The
/// caller applies the result to each file.
pub fn cmd_setattr(argv: &Vec<String>, valid_opts: &Vec<String>) -> (r: Result<
    SetattrArgs,
    SetattrError,
>)
    ensures
        match r {
            Ok(args) => spec_cmd_setattr(args_view(argv@), args_view(valid_opts@)) == Ok::<
                SetattrArgsView,
                SetattrErrorView,
            >(args@),
            Err(e) => spec_cmd_setattr(args_view(argv@), args_view(valid_opts@)) == Err::<
                SetattrArgsView,
                SetattrErrorView,
            >(e@),
        },
{
    match parse_setattr_args(argv, valid_opts) {
        Ok(args) => {
            if args.files.len() == 0 {
                Err(SetattrError::NoFiles)
            } else {
                Ok(args)
            }
        },
        Err(e) => Err(e),
    }
}

} // verus!
