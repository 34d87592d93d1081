//! What holds of the reading of a command line as a whole.

use vstd::prelude::*;

use crate::context::{initial, strings_view, CtxView};
use crate::options::{
    first_step, nothing_read, scan, step, OptView, ParserView, ResultView, StepView,
};
use crate::options::{ParseResult, ParseStep};

verus! {

/// What a command line comes to if every file that is to be created can be.
///
/// It comes to nothing in particular if an option has no value.
pub open spec fn read_all(p: ParserView, rest: Seq<OptView>) -> ResultView
    decreases rest.len(),
{
    if rest.len() == 0 {
        ResultView::ParseOk(p.clang_args, initial(p.pat, p.link, p.out))
    } else {
        let more = rest.drop_first();
        match rest[0] {
            OptView::Help => ResultView::CmdUsage,
            OptView::Out(path) => read_all(ParserView { out: Some(path), ..p }, more),
            OptView::Link(name) => read_all(ParserView { link: Some(name), ..p }, more),
            OptView::Match(pat) => read_all(ParserView { pat: p.pat.push(pat), ..p }, more),
            OptView::Clang(arg) => read_all(
                ParserView { clang_args: p.clang_args.push(arg), ..p },
                more,
            ),
            OptView::Lacking => arbitrary(),
        }
    }
}

/// Stopping to create a file and reading on comes to what reading in one go
/// does, and less is left to read each time.
pub proof fn law_steps_compose(p: ParserView, rest: Seq<OptView>)
    ensures
        match step(p, rest) {
            StepView::Finished(r) => read_all(p, rest) == r,
            StepView::OpenOutput(path, q, more) => {
                &&& q.out == Some(path)
                &&& more.len() < rest.len()
                &&& read_all(q, more) == read_all(p, rest)
            },
            StepView::Stuck => rest.contains(OptView::Lacking),
        },
    decreases rest.len(),
{
    if rest.len() > 0 {
        let more = rest.drop_first();
        match rest[0] {
            OptView::Link(name) => law_steps_compose(ParserView { link: Some(name), ..p }, more),
            OptView::Match(pat) => law_steps_compose(
                ParserView { pat: p.pat.push(pat), ..p },
                more,
            ),
            OptView::Clang(arg) => law_steps_compose(
                ParserView { clang_args: p.clang_args.push(arg), ..p },
                more,
            ),
            _ => {},
        }
        if step(p, rest) is Stuck {
            if rest[0] !is Lacking {
                let i = choose|i: int| 0 <= i < more.len() && more[i] == OptView::Lacking;
                assert(rest[i + 1] == OptView::Lacking);
            }
        }
    }
}

/// The arguments for clang among the options, in order.
pub open spec fn clang_values(opts: Seq<OptView>) -> Seq<Seq<char>> {
    opts.filter(|o: OptView| o is Clang).map_values(|o: OptView| o->Clang_0)
}

/// The patterns among the options, in order.
pub open spec fn match_values(opts: Seq<OptView>) -> Seq<Seq<char>> {
    opts.filter(|o: OptView| o is Match).map_values(|o: OptView| o->Match_0)
}

/// The last library to link with among the options, or `or` if there is none.
pub open spec fn last_link(opts: Seq<OptView>, or: Option<Seq<char>>) -> Option<Seq<char>>
    decreases opts.len(),
{
    if opts.len() == 0 {
        or
    } else {
        match opts.last() {
            OptView::Link(name) => Some(name),
            _ => last_link(opts.drop_last(), or),
        }
    }
}

/// The last file to write to among the options, or `or` if there is none.
pub open spec fn last_out(opts: Seq<OptView>, or: Option<Seq<char>>) -> Option<Seq<char>>
    decreases opts.len(),
{
    if opts.len() == 0 {
        or
    } else {
        match opts.last() {
            OptView::Out(path) => Some(path),
            _ => last_out(opts.drop_last(), or),
        }
    }
}

proof fn lemma_last_from_front(opts: Seq<OptView>, link: Option<Seq<char>>, out: Option<Seq<char>>)
    requires
        opts.len() > 0,
    ensures
        last_link(opts, link) == last_link(
            opts.drop_first(),
            match opts[0] {
                OptView::Link(name) => Some(name),
                _ => link,
            },
        ),
        last_out(opts, out) == last_out(
            opts.drop_first(),
            match opts[0] {
                OptView::Out(path) => Some(path),
                _ => out,
            },
        ),
    decreases opts.len(),
{
    reveal_with_fuel(last_link, 2);
    reveal_with_fuel(last_out, 2);
    if opts.len() > 1 {
        lemma_last_from_front(opts.drop_last(), link, out);
        assert(opts.drop_last().drop_first() =~= opts.drop_first().drop_last());
    }
}

proof fn lemma_filter_from_front(opts: Seq<OptView>, pred: spec_fn(OptView) -> bool)
    requires
        opts.len() > 0,
    ensures
        opts.filter(pred) == (if pred(opts[0]) {
            seq![opts[0]]
        } else {
            Seq::empty()
        }) + opts.drop_first().filter(pred),
{
    let first = seq![opts[0]];
    assert(opts =~= first + opts.drop_first());
    Seq::filter_distributes_over_add(first, opts.drop_first(), pred);
    reveal(Seq::filter);
    assert(first.drop_last() =~= Seq::empty());
    assert(first.drop_last().filter(pred) =~= Seq::empty());
    if pred(opts[0]) {
        assert(first.filter(pred) =~= first);
    } else {
        assert(first.filter(pred) =~= Seq::empty());
    }
}

proof fn lemma_collected(p: ParserView, opts: Seq<OptView>)
    requires
        forall|i: int|
            0 <= i < opts.len() ==> (#[trigger] opts[i]) !is Help && opts[i] !is Lacking,
    ensures
        read_all(p, opts) == ResultView::ParseOk(
            p.clang_args + clang_values(opts),
            initial(p.pat + match_values(opts), last_link(opts, p.link), last_out(opts, p.out)),
        ),
    decreases opts.len(),
{
    let is_clang = |o: OptView| o is Clang;
    let is_match = |o: OptView| o is Match;
    if opts.len() == 0 {
        reveal(Seq::filter);
        assert(p.clang_args + clang_values(opts) =~= p.clang_args);
        assert(p.pat + match_values(opts) =~= p.pat);
    } else {
        let more = opts.drop_first();
        assert forall|i: int| 0 <= i < more.len() implies (#[trigger] more[i]) !is Help && more[i]
            !is Lacking by {
            assert(more[i] == opts[i + 1]);
        }
        lemma_last_from_front(opts, p.link, p.out);
        lemma_filter_from_front(opts, is_clang);
        lemma_filter_from_front(opts, is_match);
        match opts[0] {
            OptView::Out(path) => {
                assert(clang_values(opts) =~= clang_values(more));
                assert(match_values(opts) =~= match_values(more));
                lemma_collected(ParserView { out: Some(path), ..p }, more);
            },
            OptView::Link(name) => {
                assert(clang_values(opts) =~= clang_values(more));
                assert(match_values(opts) =~= match_values(more));
                lemma_collected(ParserView { link: Some(name), ..p }, more);
            },
            OptView::Match(pat) => {
                assert(clang_values(opts) =~= clang_values(more));
                assert(p.pat + match_values(opts) =~= p.pat.push(pat) + match_values(more));
                lemma_collected(ParserView { pat: p.pat.push(pat), ..p }, more);
            },
            OptView::Clang(arg) => {
                assert(match_values(opts) =~= match_values(more));
                assert(p.clang_args + clang_values(opts) =~= p.clang_args.push(arg)
                    + clang_values(more));
                lemma_collected(
                    ParserView { clang_args: p.clang_args.push(arg), ..p },
                    more,
                );
            },
            _ => {
                assert(opts[0] is Help || opts[0] is Lacking);
            },
        }
    }
}

/// Without a call for help, and if every file can be created, all arguments that
/// are no options go to clang, in their order; all patterns are kept, in their
/// order; of several libraries and of several files the last counts, and
/// without one there is no library and the output is standard output.
pub proof fn law_options_collected(opts: Seq<OptView>)
    requires
        forall|i: int|
            0 <= i < opts.len() ==> (#[trigger] opts[i]) !is Help && opts[i] !is Lacking,
    ensures
        read_all(nothing_read(), opts) == ResultView::ParseOk(
            clang_values(opts),
            initial(match_values(opts), last_link(opts, None), last_out(opts, None)),
        ),
{
    lemma_collected(nothing_read(), opts);
    assert(nothing_read().clang_args + clang_values(opts) =~= clang_values(opts));
    assert(nothing_read().pat + match_values(opts) =~= match_values(opts));
}

/// A call for help wins over all that comes before it and after it, as long as
/// the options before it have their values and every file can be created.
pub proof fn law_help_wins(p: ParserView, opts: Seq<OptView>, k: int)
    requires
        0 <= k < opts.len(),
        opts[k] is Help,
        forall|i: int| 0 <= i < k ==> (#[trigger] opts[i]) !is Lacking,
    ensures
        read_all(p, opts) == ResultView::CmdUsage,
    decreases opts.len(),
{
    if k > 0 {
        let more = opts.drop_first();
        assert forall|i: int| 0 <= i < k - 1 implies (#[trigger] more[i]) !is Lacking by {
            assert(more[i] == opts[i + 1]);
        }
        match opts[0] {
            OptView::Out(path) => law_help_wins(ParserView { out: Some(path), ..p }, more, k - 1),
            OptView::Link(name) => law_help_wins(
                ParserView { link: Some(name), ..p },
                more,
                k - 1,
            ),
            OptView::Match(pat) => law_help_wins(
                ParserView { pat: p.pat.push(pat), ..p },
                more,
                k - 1,
            ),
            OptView::Clang(arg) => law_help_wins(
                ParserView { clang_args: p.clang_args.push(arg), ..p },
                more,
                k - 1,
            ),
            _ => {
                assert(opts[0] !is Lacking);
            },
        }
    }
}

/// What a command line holds from an argument on: nothing at its end; else a
/// call for help, an option with what follows it as its value, whatever that is,
/// an option that lacks one at the end, or an argument for clang; and then what
/// it holds from there on.
pub proof fn law_line_scanned(args: Seq<Seq<char>>, ix: int)
    requires
        0 <= ix <= args.len(),
    ensures
        ({
            let r = scan(args, ix);
            let arg = args[ix];
            let takes_value = arg == "-o"@ || arg == "-l"@ || arg == "-match"@;
            &&& ix == args.len() ==> r.len() == 0
            &&& ix < args.len() ==> {
                &&& r.len() > 0
                &&& arg == "--help"@ || arg == "-h"@ ==> {
                    &&& r[0] == OptView::Help
                    &&& r.drop_first() == scan(args, ix + 1)
                }
                &&& takes_value && ix + 1 == args.len() ==> r == seq![OptView::Lacking]
                &&& takes_value && ix + 1 < args.len() ==> {
                    &&& arg == "-o"@ ==> r[0] == OptView::Out(args[ix + 1])
                    &&& arg == "-l"@ ==> r[0] == OptView::Link(args[ix + 1])
                    &&& arg == "-match"@ ==> r[0] == OptView::Match(args[ix + 1])
                    &&& r.drop_first() == scan(args, ix + 2)
                }
                &&& !takes_value && arg != "--help"@ && arg != "-h"@ ==> {
                    &&& r[0] == OptView::Clang(arg)
                    &&& r.drop_first() == scan(args, ix + 1)
                }
            }
        }),
{
    reveal_strlit("--help");
    reveal_strlit("-h");
    reveal_strlit("-o");
    reveal_strlit("-l");
    reveal_strlit("-match");
    if ix < args.len() {
        let arg = args[ix];
        let r = scan(args, ix);
        let takes_value = arg == "-o"@ || arg == "-l"@ || arg == "-match"@;
        assert("-o"@[1] != "-l"@[1]);
        assert("-o"@[1] != "-h"@[1]);
        assert("-l"@[1] != "-h"@[1]);
        assert("-match"@.len() == 6);
        assert("--help"@[1] != "-match"@[1]);
        if takes_value {
            if ix + 1 < args.len() {
                assert(r.drop_first() =~= scan(args, ix + 2));
            }
        } else {
            assert(r.drop_first() =~= scan(args, ix + 1));
        }
    }
}

/// Before anything is read there are no arguments, no patterns, no library and
/// no file; a command line without arguments is a call for help, and any other
/// is read from its first argument on.
pub proof fn law_reading_starts(args: Seq<Seq<char>>)
    ensures
        nothing_read().clang_args.len() == 0,
        nothing_read().pat.len() == 0,
        nothing_read().link is None,
        nothing_read().out is None,
        args.len() == 0 ==> first_step(args) == StepView::Finished(ResultView::CmdUsage),
        args.len() > 0 ==> first_step(args) == step(nothing_read(), scan(args, 0)),
{
}

/// The values of options are listed in order, each kind for itself; of libraries
/// and of files the last counts.
pub proof fn law_values_listed(opts: Seq<OptView>, o: OptView, or: Option<Seq<char>>)
    ensures
        clang_values(Seq::empty()).len() == 0,
        match_values(Seq::empty()).len() == 0,
        last_link(Seq::empty(), or) == or,
        last_out(Seq::empty(), or) == or,
        o is Clang ==> clang_values(opts.push(o)) == clang_values(opts).push(o->Clang_0),
        o !is Clang ==> clang_values(opts.push(o)) == clang_values(opts),
        o is Match ==> match_values(opts.push(o)) == match_values(opts).push(o->Match_0),
        o !is Match ==> match_values(opts.push(o)) == match_values(opts),
        o is Link ==> last_link(opts.push(o), or) == Some(o->Link_0),
        o !is Link ==> last_link(opts.push(o), or) == last_link(opts, or),
        o is Out ==> last_out(opts.push(o), or) == Some(o->Out_0),
        o !is Out ==> last_out(opts.push(o), or) == last_out(opts, or),
{
    reveal(Seq::filter);
    assert(opts.push(o).drop_last() =~= opts);
    let none = Seq::<OptView>::empty();
    assert(clang_values(none) =~= Seq::<Seq<char>>::empty());
    assert(match_values(none) =~= Seq::<Seq<char>>::empty());
    if o is Clang {
        assert(clang_values(opts.push(o)) =~= clang_values(opts).push(o->Clang_0));
    }
    if o is Match {
        assert(match_values(opts.push(o)) =~= match_values(opts).push(o->Match_0));
    }
}

/// Reading collects libraries, patterns and arguments for clang, and stops at
/// whatever comes first of all else: at the end with all that was collected, at
/// a call for help with that, at a file to create with the file, what was
/// collected and what is left, and at an option that lacks its value with
/// nothing.
pub proof fn law_where_reading_stops(p: ParserView, rest: Seq<OptView>, k: int)
    requires
        0 <= k <= rest.len(),
        forall|i: int|
            0 <= i < k ==> (#[trigger] rest[i]) is Link || rest[i] is Match || rest[i] is Clang,
    ensures
        ({
            let done = rest.take(k);
            let clang_args = p.clang_args + clang_values(done);
            let pat = p.pat + match_values(done);
            let link = last_link(done, p.link);
            let r = step(p, rest);
            &&& k == rest.len() ==> r == StepView::Finished(
                ResultView::ParseOk(clang_args, initial(pat, link, p.out)),
            )
            &&& k < rest.len() ==> {
                &&& rest[k] is Help ==> r == StepView::Finished(ResultView::CmdUsage)
                &&& rest[k] is Lacking ==> r is Stuck
                &&& rest[k] is Out ==> {
                    &&& r matches StepView::OpenOutput(path, q, more)
                    &&& path == rest[k]->Out_0
                    &&& q.clang_args == clang_args
                    &&& q.pat == pat
                    &&& q.link == link
                    &&& q.out == Some(path)
                    &&& more == rest.skip(k + 1)
                }
            }
        }),
    decreases rest.len(),
{
    let done = rest.take(k);
    if k == 0 {
        reveal(Seq::filter);
        assert(p.clang_args + clang_values(done) =~= p.clang_args);
        assert(p.pat + match_values(done) =~= p.pat);
        if rest.len() > 0 {
            assert(rest.drop_first() =~= rest.skip(1));
        }
    } else {
        let more = rest.drop_first();
        let q = match rest[0] {
            OptView::Link(name) => ParserView { link: Some(name), ..p },
            OptView::Match(pat) => ParserView { pat: p.pat.push(pat), ..p },
            OptView::Clang(arg) => ParserView { clang_args: p.clang_args.push(arg), ..p },
            _ => p,
        };
        assert forall|i: int| 0 <= i < k - 1 implies (#[trigger] more[i]) is Link || more[i]
            is Match || more[i] is Clang by {
            assert(more[i] == rest[i + 1]);
        }
        law_where_reading_stops(q, more, k - 1);
        assert(rest[0] is Link || rest[0] is Match || rest[0] is Clang);
        assert(step(p, rest) == step(q, more));
        assert(done.drop_first() =~= more.take(k - 1));
        if k < rest.len() {
            assert(more.skip(k) =~= rest.skip(k + 1));
        }
        lemma_last_from_front(done, p.link, p.out);
        lemma_filter_from_front(done, |o: OptView| o is Clang);
        lemma_filter_from_front(done, |o: OptView| o is Match);
        assert(p.clang_args + clang_values(done) =~= q.clang_args + clang_values(more.take(k - 1)));
        assert(p.pat + match_values(done) =~= q.pat + match_values(more.take(k - 1)));
    }
}

/// A result shows what it holds, and nothing else.
pub proof fn law_results_show_what_they_hold(
    r: ParseResult,
    args: Seq<Seq<char>>,
    ctx: CtxView,
    e: Seq<char>,
)
    ensures
        r.shows(ResultView::CmdUsage) <==> r is CmdUsage,
        r.shows(ResultView::ParseOk(args, ctx)) <==> {
            &&& r matches ParseResult::ParseOk(a, c)
            &&& strings_view(a@) == args
            &&& c@ == ctx
            &&& c.wf()
        },
        r.shows(ResultView::ParseErr(e)) <==> {
            &&& r matches ParseResult::ParseErr(m)
            &&& m@ == e
        },
{
}

/// A step shows what it holds, and nothing else; no step shows a lacking value.
pub proof fn law_steps_show_what_they_hold(
    s: ParseStep,
    args: Seq<Seq<char>>,
    v: ResultView,
    path: Seq<char>,
    p: ParserView,
    rest: Seq<OptView>,
)
    ensures
        s.shows(args, StepView::Finished(v)) <==> {
            &&& s matches ParseStep::Finished(r)
            &&& r.shows(v)
        },
        s.shows(args, StepView::OpenOutput(path, p, rest)) <==> {
            &&& s matches ParseStep::OpenOutput(name, q)
            &&& name@ == path
            &&& q@ == p
            &&& q.rest(args) == rest
        },
        !s.shows(args, StepView::Stuck),
{
}

} // verus!
