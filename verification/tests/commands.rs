//! Compilation-database entries: command-line splitting, output-path
//! derivation, and freshness decisions.

use cpparser::commands::{
    product_freshness, CompilationDatabase, Entry, OutputFreshnessError, ProductFreshness,
};
use cpparser::stack::{StackFrame, StackFrameId, StackTrace};

fn entry(directory: &str, command: &str, file: &str) -> Entry {
    Entry {
        directory: String::from(directory),
        command: String::from(command),
        file: String::from(file),
    }
}

#[test]
fn command_words() {
    let e = entry("/bld", "cc -c 'foo bar.c' -o out/foo.o", "foo bar.c");
    assert_eq!(e.program().unwrap(), "cc");
    let args = e.args();
    assert_eq!(args, vec!["-c", "foo bar.c", "-o", "out/foo.o"]);
    assert_eq!(e.current_dir(), "/bld");
    assert_eq!(e.input(), "foo bar.c");
}

#[test]
fn output_paths() {
    // Relative outputs are resolved against the working directory
    let e = entry("/bld", "cc -c foo.c -o out/foo.o", "foo.c");
    assert_eq!(e.output().unwrap(), "/bld/out/foo.o");
    // Absolute outputs stand on their own
    let e = entry("/bld", "cc -c foo.c -o /tmp/foo.o", "foo.c");
    assert_eq!(e.output().unwrap(), "/tmp/foo.o");
    // A bare file name lands in the working directory
    let e = entry("/bld", "cc -c foo.c -o foo.o", "foo.c");
    assert_eq!(e.output().unwrap(), "/bld/foo.o");
    // No `-o` flag, or nothing after it, means no output
    let e = entry("/bld", "cc -c foo.c", "foo.c");
    assert_eq!(e.output(), None);
    let e = entry("/bld", "cc -c foo.c -o", "foo.c");
    assert_eq!(e.output(), None);
}

#[test]
fn freshness() {
    // A missing product has never been built
    assert_eq!(
        product_freshness(None, &vec![10, 20], Some(5)),
        ProductFreshness::Nonexistent
    );
    // A product older than any reference is provably outdated
    assert_eq!(
        product_freshness(Some(15), &vec![10, 20], Some(5)),
        ProductFreshness::Outdated
    );
    // A product newer than all references could still be outdated
    assert_eq!(
        product_freshness(Some(30), &vec![10, 20], Some(5)),
        ProductFreshness::MaybeOutdated(Some(5))
    );
    assert_eq!(
        product_freshness(Some(30), &vec![10, 20], None),
        ProductFreshness::MaybeOutdated(None)
    );
}

#[test]
fn database_freshness() {
    let db = CompilationDatabase {
        db_entries: vec![
            entry("/bld", "cc -c a.c -o a.o", "a.c"),
            entry("/bld", "cc -c b.c", "b.c"),
        ],
    };
    assert_eq!(CompilationDatabase::location(), "compile_commands.json");
    assert_eq!(db.entries().len(), 2);
    // Full-profile freshness compares against the database and every input
    assert_eq!(
        db.profile_freshness(50, &vec![10, 20], Some(40), Some(7)),
        ProductFreshness::Outdated
    );
    assert_eq!(
        db.profile_freshness(10, &vec![10, 20], Some(40), Some(7)),
        ProductFreshness::MaybeOutdated(Some(7))
    );
    // Per-entry output freshness needs a parseable output location
    assert_eq!(
        db.output_freshness(0, 10, 20, Some(40), None),
        Ok(ProductFreshness::MaybeOutdated(None))
    );
    match db.output_freshness(1, 10, 20, Some(40), None) {
        Err(OutputFreshnessError::NotACompileCommand(c)) => {
            assert_eq!(c, "cc -c b.c");
        }
        other => panic!("expected a command parse failure, got {other:?}"),
    }
}

#[test]
fn stack_frames() {
    let id = StackFrameId::from_number(42);
    assert_eq!(id.0, "42");
    let frame = StackFrame {
        category: String::from("app"),
        name: String::from("main"),
        parent: None,
    };
    assert_eq!(frame.parent, None);
    let trace = StackTrace::Frame(StackFrameId(String::from("7")));
    match trace {
        StackTrace::Frame(f) => assert_eq!(f.0, "7"),
        StackTrace::Inline(_) => panic!("expected a frame reference"),
    }
}
