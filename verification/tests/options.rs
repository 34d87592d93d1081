use bindgen::options::{parse_args, usage, ArgParser, ParseResult, ParseStep};

fn line(args: &[&str]) -> Vec<String> {
    args.iter().map(|a| a.to_string()).collect()
}

/// Reads a command line to the end; every file can be created but those named
/// `locked`. Gives the files that were created, in order.
fn read(args: &[&str]) -> (ParseResult, Vec<String>) {
    let args = line(args);
    let mut created = Vec::new();
    assert!(args.is_empty() || !ArgParser::new().lacks_value(&args));
    let mut step = parse_args(&args);
    loop {
        match step {
            ParseStep::Finished(r) => return (r, created),
            ParseStep::OpenOutput(path, parser) => {
                if path == "locked" {
                    step = parser.resume(&args, Err("no permission".to_string()));
                } else {
                    created.push(path);
                    assert!(!parser.lacks_value(&args));
                    step = parser.resume(&args, Ok(()));
                }
            }
        }
    }
}

#[test]
fn no_arguments_call_for_help() {
    assert!(matches!(read(&[]).0, ParseResult::CmdUsage));
}

#[test]
fn help_in_both_spellings() {
    assert!(matches!(read(&["--help"]).0, ParseResult::CmdUsage));
    assert!(matches!(read(&["-h"]).0, ParseResult::CmdUsage));
    assert!(matches!(read(&["a.h", "-l", "z", "-h", "-o"]).0, ParseResult::CmdUsage));
}

#[test]
fn a_file_is_created_before_help_is_reached() {
    let (r, created) = read(&["-o", "out.rs", "--help"]);
    assert!(matches!(r, ParseResult::CmdUsage));
    assert_eq!(created, line(&["out.rs"]));
}

#[test]
fn options_are_taken_and_the_rest_goes_to_clang() {
    let (r, created) = read(&[
        "-I/usr/include", "-l", "z", "-match", "zlib", "-DX", "-match", "zconf", "-o", "z.rs", "zlib.h",
    ]);
    match r {
        ParseResult::ParseOk(clang_args, ctx) => {
            assert_eq!(clang_args, line(&["-I/usr/include", "-DX", "zlib.h"]));
            assert_eq!(ctx.link, Some("z".to_string()));
            assert_eq!(ctx.match_pat, line(&["zlib", "zconf"]));
            assert_eq!(ctx.out, Some("z.rs".to_string()));
            assert!(ctx.globals.is_empty());
            assert!(ctx.comps.is_empty());
        }
        _ => panic!("not read"),
    }
    assert_eq!(created, line(&["z.rs"]));
}

#[test]
fn without_options_there_is_no_library_and_output_is_standard() {
    match read(&["a.h"]).0 {
        ParseResult::ParseOk(clang_args, ctx) => {
            assert_eq!(clang_args, line(&["a.h"]));
            assert_eq!(ctx.link, None);
            assert_eq!(ctx.out, None);
            assert!(ctx.match_pat.is_empty());
        }
        _ => panic!("not read"),
    }
}

#[test]
fn the_last_library_and_the_last_file_count() {
    let (r, created) = read(&["-l", "a", "-o", "1", "-l", "b", "-o", "2", "x.h"]);
    match r {
        ParseResult::ParseOk(_, ctx) => {
            assert_eq!(ctx.link, Some("b".to_string()));
            assert_eq!(ctx.out, Some("2".to_string()));
        }
        _ => panic!("not read"),
    }
    assert_eq!(created, line(&["1", "2"]));
}

#[test]
fn the_value_of_an_option_may_look_like_an_option() {
    match read(&["-l", "-h", "-match", "-o", "x.h"]).0 {
        ParseResult::ParseOk(clang_args, ctx) => {
            assert_eq!(clang_args, line(&["x.h"]));
            assert_eq!(ctx.link, Some("-h".to_string()));
            assert_eq!(ctx.match_pat, line(&["-o"]));
        }
        _ => panic!("not read"),
    }
}

#[test]
fn a_file_that_cannot_be_created_is_an_error() {
    let (r, created) = read(&["-o", "first", "-o", "locked", "-h"]);
    match r {
        ParseResult::ParseErr(e) => assert_eq!(e, "no permission"),
        _ => panic!("not refused"),
    }
    assert_eq!(created, line(&["first"]));
}

#[test]
fn an_option_without_a_value_is_found() {
    for last in ["-o", "-l", "-match"] {
        assert!(ArgParser::new().lacks_value(&line(&[last])));
        assert!(ArgParser::new().lacks_value(&line(&["a.h", "-l", "z", last])));
        assert!(!ArgParser::new().lacks_value(&line(&["-h", last])));
        assert!(!ArgParser::new().lacks_value(&line(&["-l", last])));
        assert!(!ArgParser::new().lacks_value(&line(&["-o", "x", last])));
    }
    assert!(!ArgParser::new().lacks_value(&line(&["--output"])));
}

#[test]
fn an_option_without_a_value_is_found_after_a_file() {
    let args = line(&["-o", "x", "-l"]);
    match parse_args(&args) {
        ParseStep::OpenOutput(path, parser) => {
            assert_eq!(path, "x");
            assert!(parser.lacks_value(&args));
        }
        _ => panic!("no file"),
    }
}

#[test]
fn usage_names_the_program_and_the_options() {
    assert_eq!(
        usage("bindgen"),
        "Usage: bindgen [options] input.h
Options:
    -h or --help    Display help message
    -l <name>       Link name of the library
    -o <output.rs>  Write bindings to <output.rs> (default stdout)
    -match <name>   Only output bindings for definitions from files
                    whose name contains <name>
                    If multiple -match options are provided, files
                    matching any rule are bound to.

    Options other than stated above are passed to clang.
"
    );
}
