//! The command line.

use vstd::prelude::*;
use vstd::string::StringExecFns;

use crate::context::BindGenCtx;
use crate::context::{initial, option_view, strings_view, CtxView};
use crate::text::same_text;

verus! {

/// What the command line asks for.
#[derive(Debug)]
pub enum ParseResult {
    /// To be told how the program is used.
    CmdUsage,
    /// A run, with the arguments that go to clang.
    ParseOk(Vec<String>, BindGenCtx),
    /// Nothing: it is in error.
    ParseErr(String),
}

/// How far the reading of a command line has come.
#[derive(Debug)]
pub enum ParseStep {
    /// It is done.
    Finished(ParseResult),
    /// The file of this name is to be created for the output; reading goes on
    /// with [`ArgParser::resume`].
    OpenOutput(String, ArgParser),
}

/// A command line that has been read in part.
#[derive(Debug)]
pub struct ArgParser {
    ix: usize,
    clang_args: Vec<String>,
    pat: Vec<String>,
    link: Option<String>,
    out: Option<String>,
}

/// What has been read of a command line.
#[verifier::ext_equal]
pub struct ParserView {
    pub clang_args: Seq<Seq<char>>,
    pub pat: Seq<Seq<char>>,
    pub link: Option<Seq<char>>,
    pub out: Option<Seq<char>>,
}

/// One option of a command line, with its value, or one argument for clang.
pub enum OptView {
    Help,
    Out(Seq<char>),
    Link(Seq<char>),
    Match(Seq<char>),
    Clang(Seq<char>),
    /// An option that stands last and has no value.
    Lacking,
}

/// What a [`ParseResult`] stands for.
pub enum ResultView {
    CmdUsage,
    ParseOk(Seq<Seq<char>>, CtxView),
    ParseErr(Seq<char>),
}

/// What a [`ParseStep`] stands for.
pub enum StepView {
    Finished(ResultView),
    /// A file to create, what has been read, and what has not.
    OpenOutput(Seq<char>, ParserView, Seq<OptView>),
    /// An option has no value.
    Stuck,
}

/// The options and arguments of a command line, from the argument `ix` on.
///
/// What follows an option that takes a value is its value, whatever it is.
pub open spec fn scan(args: Seq<Seq<char>>, ix: int) -> Seq<OptView>
    decreases args.len() - ix,
{
    if ix < 0 || ix >= args.len() {
        Seq::empty()
    } else if args[ix] == "--help"@ || args[ix] == "-h"@ {
        seq![OptView::Help] + scan(args, ix + 1)
    } else if args[ix] == "-o"@ || args[ix] == "-l"@ || args[ix] == "-match"@ {
        if ix + 1 >= args.len() {
            seq![OptView::Lacking]
        } else if args[ix] == "-o"@ {
            seq![OptView::Out(args[ix + 1])] + scan(args, ix + 2)
        } else if args[ix] == "-l"@ {
            seq![OptView::Link(args[ix + 1])] + scan(args, ix + 2)
        } else {
            seq![OptView::Match(args[ix + 1])] + scan(args, ix + 2)
        }
    } else {
        seq![OptView::Clang(args[ix])] + scan(args, ix + 1)
    }
}

/// Nothing read yet: no arguments, no patterns, no library, standard output.
pub open spec fn nothing_read() -> ParserView {
    ParserView { clang_args: Seq::empty(), pat: Seq::empty(), link: None, out: None }
}

/// Reads on up to the end, a call for help, or a file to create.
pub open spec fn step(p: ParserView, rest: Seq<OptView>) -> StepView
    decreases rest.len(),
{
    if rest.len() == 0 {
        StepView::Finished(
            ResultView::ParseOk(p.clang_args, initial(p.pat, p.link, p.out)),
        )
    } else {
        let more = rest.drop_first();
        match rest[0] {
            OptView::Help => StepView::Finished(ResultView::CmdUsage),
            OptView::Out(path) => StepView::OpenOutput(
                path,
                ParserView { out: Some(path), ..p },
                more,
            ),
            OptView::Link(name) => step(ParserView { link: Some(name), ..p }, more),
            OptView::Match(pat) => step(ParserView { pat: p.pat.push(pat), ..p }, more),
            OptView::Clang(arg) => step(
                ParserView { clang_args: p.clang_args.push(arg), ..p },
                more,
            ),
            OptView::Lacking => StepView::Stuck,
        }
    }
}

impl View for ArgParser {
    type V = ParserView;

    closed spec fn view(&self) -> ParserView {
        ParserView {
            clang_args: strings_view(self.clang_args@),
            pat: strings_view(self.pat@),
            link: option_view(self.link),
            out: option_view(self.out),
        }
    }
}

impl ParseResult {
    /// Whether the result is `v`, and the state of the run sound.
    pub open spec fn shows(&self, v: ResultView) -> bool {
        match (*self, v) {
            (ParseResult::CmdUsage, ResultView::CmdUsage) => true,
            (ParseResult::ParseOk(args, ctx), ResultView::ParseOk(args_v, ctx_v)) => {
                &&& strings_view(args@) == args_v
                &&& ctx@ == ctx_v
                &&& ctx.wf()
            },
            (ParseResult::ParseErr(e), ResultView::ParseErr(e_v)) => e@ == e_v,
            _ => false,
        }
    }
}

impl ParseStep {
    /// Whether the reading of the command line has come to `v`.
    pub open spec fn shows(&self, args: Seq<Seq<char>>, v: StepView) -> bool {
        match (*self, v) {
            (ParseStep::Finished(r), StepView::Finished(r_v)) => r.shows(r_v),
            (ParseStep::OpenOutput(path, p), StepView::OpenOutput(path_v, p_v, rest)) => {
                &&& path@ == path_v
                &&& p@ == p_v
                &&& p.rest(args) == rest
            },
            _ => false,
        }
    }
}

impl ArgParser {
    /// What of the command line has not been read.
    pub closed spec fn rest(&self, args: Seq<Seq<char>>) -> Seq<OptView> {
        scan(args, self.ix as int)
    }

    /// Nothing read yet.
    pub fn new() -> (r: ArgParser)
        ensures
            r@ == nothing_read(),
            forall|args: Seq<Seq<char>>| #[trigger] r.rest(args) == scan(args, 0),
    {
        let r = ArgParser {
            ix: 0,
            clang_args: Vec::new(),
            pat: Vec::new(),
            link: None,
            out: None,
        };
        assert(r@ =~= nothing_read());
        r
    }

    /// Whether reading on comes upon an option that stands last and has no value,
    /// before the end, a call for help or a file to create.
    pub fn lacks_value(&self, args: &Vec<String>) -> (r: bool)
        ensures
            r == (step(self@, self.rest(strings_view(args@))) is Stuck),
    {
        let ghost a = strings_view(args@);
        let ghost mut p = self@;
        let mut ix: usize = self.ix;
        while ix < args.len()
            invariant
                a == strings_view(args@),
                step(self@, self.rest(a)) == step(p, scan(a, ix as int)),
            decreases args@.len() - ix,
        {
            let arg = &args[ix];
            assert(arg@ == a[ix as int]);
            let ghost rest = scan(a, ix as int);
            if same_text(arg, "--help") || same_text(arg, "-h") {
                return false;
            } else if same_text(arg, "-o") || same_text(arg, "-l") || same_text(arg, "-match") {
                if ix + 1 >= args.len() {
                    return true;
                }
                if same_text(arg, "-o") {
                    return false;
                }
                assert(rest.drop_first() =~= scan(a, ix + 2));
                proof {
                    p = match rest[0] {
                        OptView::Link(name) => ParserView { link: Some(name), ..p },
                        OptView::Match(pat) => ParserView { pat: p.pat.push(pat), ..p },
                        _ => p,
                    };
                }
                ix = ix + 2;
            } else {
                assert(rest.drop_first() =~= scan(a, ix + 1));
                proof {
                    p = ParserView { clang_args: p.clang_args.push(arg@), ..p };
                }
                ix = ix + 1;
            }
        }
        false
    }

    /// Reads on up to the end, a call for help, or a file to create.
    fn run(self, args: &Vec<String>) -> (r: ParseStep)
        requires
            !(step(self@, self.rest(strings_view(args@))) is Stuck),
        ensures
            r.shows(strings_view(args@), step(self@, self.rest(strings_view(args@)))),
    {
        let ghost a = strings_view(args@);
        let ghost goal = step(self@, self.rest(a));
        let mut p = self;
        while p.ix < args.len()
            invariant
                a == strings_view(args@),
                goal == step(self@, self.rest(a)),
                step(p@, p.rest(a)) == goal,
                !(goal is Stuck),
            decreases args@.len() - p.ix,
        {
            let ix = p.ix;
            let arg = &args[ix];
            assert(arg@ == a[ix as int]);
            let ghost rest = p.rest(a);
            let ghost before = p@;
            if same_text(arg, "--help") || same_text(arg, "-h") {
                return ParseStep::Finished(ParseResult::CmdUsage);
            } else if same_text(arg, "-o") {
                let path = args[ix + 1].clone();
                p.out = Some(args[ix + 1].clone());
                p.ix = ix + 2;
                assert(rest.drop_first() =~= p.rest(a));
                assert(p@ =~= ParserView { out: Some(path@), ..before });
                return ParseStep::OpenOutput(path, p);
            } else if same_text(arg, "-l") {
                p.link = Some(args[ix + 1].clone());
                p.ix = ix + 2;
                assert(rest.drop_first() =~= p.rest(a));
                assert(p@ =~= ParserView { link: Some(a[ix + 1]), ..before });
            } else if same_text(arg, "-match") {
                p.pat.push(args[ix + 1].clone());
                p.ix = ix + 2;
                assert(rest.drop_first() =~= p.rest(a));
                assert(p@ =~= ParserView { pat: before.pat.push(a[ix + 1]), ..before });
            } else {
                p.clang_args.push(arg.clone());
                p.ix = ix + 1;
                assert(rest.drop_first() =~= p.rest(a));
                assert(p@ =~= ParserView {
                    clang_args: before.clang_args.push(a[ix as int]),
                    ..before
                });
            }
        }
        ParseStep::Finished(
            ParseResult::ParseOk(p.clang_args, BindGenCtx::new(p.pat, p.link, p.out)),
        )
    }

    /// Reads on after an attempt to create the file for the output: gives up with
    /// the message if that failed.
    pub fn resume(self, args: &Vec<String>, opened: Result<(), String>) -> (r: ParseStep)
        requires
            opened is Ok ==> !(step(self@, self.rest(strings_view(args@))) is Stuck),
        ensures
            match opened {
                Ok(_) => r.shows(
                    strings_view(args@),
                    step(self@, self.rest(strings_view(args@))),
                ),
                Err(e) => r.shows(
                    strings_view(args@),
                    StepView::Finished(ResultView::ParseErr(e@)),
                ),
            },
    {
        match opened {
            Ok(_) => self.run(args),
            Err(e) => ParseStep::Finished(ParseResult::ParseErr(e)),
        }
    }
}

/// The first step in reading a command line.
pub open spec fn first_step(args: Seq<Seq<char>>) -> StepView {
    if args.len() == 0 {
        StepView::Finished(ResultView::CmdUsage)
    } else {
        step(nothing_read(), scan(args, 0))
    }
}

/// Reads a command line, without the name of the program, up to the end, a call
/// for help, or a file to create. One without arguments is a call for help.
pub fn parse_args(args: &Vec<String>) -> (r: ParseStep)
    requires
        !(first_step(strings_view(args@)) is Stuck),
    ensures
        r.shows(strings_view(args@), first_step(strings_view(args@))),
{
    if args.len() == 0 {
        return ParseStep::Finished(ParseResult::CmdUsage);
    }
    ArgParser::new().run(args)
}

/// What the options are.
pub const OPTIONS: &'static str = "
Options:
    -h or --help    Display help message
    -l <name>       Link name of the library
    -o <output.rs>  Write bindings to <output.rs> (default stdout)
    -match <name>   Only output bindings for definitions from files
                    whose name contains <name>
                    If multiple -match options are provided, files
                    matching any rule are bound to.

    Options other than stated above are passed to clang.
";

/// How the program of the given name is used.
pub fn usage(bin: &str) -> (r: String)
    ensures
        r@ == "Usage: "@ + bin@ + " [options] input.h"@ + OPTIONS@,
{
    let mut r = "Usage: ".to_owned();
    r.append(bin);
    r.append(" [options] input.h");
    r.append(OPTIONS);
    r
}

} // verus!
