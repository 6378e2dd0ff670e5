//! The rules of the build file that checks and deploys the projects of a workspace.

use vstd::prelude::*;
use vstd::string::*;

use crate::ninja_writer::{put_command, put_end, put_rule, NinjaWriter, WriterView};

verus! {

/// The bytes of an ASCII text.
pub open spec fn ascii(s: Seq<char>) -> Seq<u8> {
    Seq::new(s.len(), |i: int| s[i] as u8)
}

/// Each rule definition, in order: `rule <name>`, its command, a new line.
pub open spec fn put_rules(w: WriterView, rules: Seq<(Seq<char>, Seq<char>)>) -> WriterView
    decreases rules.len(),
{
    if rules.len() == 0 {
        w
    } else {
        let prev = put_rules(w, rules.drop_last());
        put_end(put_command(put_rule(prev, ascii(rules.last().0)), ascii(rules.last().1)))
    }
}

/// The rules: directories, formatting, lints, tests, release builds and copies.
pub open spec fn workspace_rules() -> Seq<(Seq<char>, Seq<char>)> {
    seq![
        ("create_directory"@, "mkdir -p -- $out"@),
        ("fmt"@, "cargo fmt -p $project && touch $out"@),
        ("clippy"@, "cargo clippy --offline --frozen -p $project -- -D warnings && touch $out"@),
        ("test"@, "cargo test --offline --frozen -p $project && touch $out"@),
        ("release"@, "cargo build --offline --frozen --release -p $project && touch $out"@),
        ("copy"@, "cp -- $in $out"@),
    ]
}

fn write_rule(w: NinjaWriter, name: &str, command: &str) -> (r: NinjaWriter)
    requires
        w@.line == 0,
        is_ascii(name),
        is_ascii(command),
    ensures
        r@ == put_end(put_command(put_rule(w@, ascii(name@)), ascii(command@))),
{
    proof {
        is_ascii_spec_bytes(name);
        is_ascii_spec_bytes(command);
        assert(name.spec_bytes() =~= ascii(name@));
        assert(command.spec_bytes() =~= ascii(command@));
    }
    w.rule(name.as_bytes()).command(command.as_bytes()).end()
}

/// Writes the rules of the workspace's build file.
pub fn write_rules(w: NinjaWriter) -> (r: NinjaWriter)
    requires
        w@.line == 0,
    ensures
        r@ == put_rules(w@, workspace_rules()),
        r@.line == 0,
{
    let ghost w0 = w@;
    let ghost rules = workspace_rules();
    assert(rules.subrange(0, 0) =~= Seq::<(Seq<char>, Seq<char>)>::empty());
    assert(put_rules(w0, rules.subrange(0, 0)) == w0);
    proof {
        reveal_strlit("create_directory");
        reveal_strlit("mkdir -p -- $out");
        reveal_strlit("fmt");
        reveal_strlit("cargo fmt -p $project && touch $out");
        reveal_strlit("clippy");
        reveal_strlit("cargo clippy --offline --frozen -p $project -- -D warnings && touch $out");
        reveal_strlit("test");
        reveal_strlit("cargo test --offline --frozen -p $project && touch $out");
        reveal_strlit("release");
        reveal_strlit("cargo build --offline --frozen --release -p $project && touch $out");
        reveal_strlit("copy");
        reveal_strlit("cp -- $in $out");
    }
    assert(is_ascii("create_directory") && is_ascii("mkdir -p -- $out"));
    let w = write_rule(w, "create_directory", "mkdir -p -- $out");
    assert(rules.subrange(0, 1).drop_last() =~= rules.subrange(0, 0));
    assert(rules.subrange(0, 1).last() == rules[0]);
    assert(w@ == put_rules(w0, rules.subrange(0, 1)));
    assert(is_ascii("fmt") && is_ascii("cargo fmt -p $project && touch $out"));
    let w = write_rule(w, "fmt", "cargo fmt -p $project && touch $out");
    assert(rules.subrange(0, 2).drop_last() =~= rules.subrange(0, 1));
    assert(rules.subrange(0, 2).last() == rules[1]);
    assert(w@ == put_rules(w0, rules.subrange(0, 2)));
    assert(is_ascii("clippy") && is_ascii("cargo clippy --offline --frozen -p $project -- -D warnings && touch $out"));
    let w = write_rule(w, "clippy", "cargo clippy --offline --frozen -p $project -- -D warnings && touch $out");
    assert(rules.subrange(0, 3).drop_last() =~= rules.subrange(0, 2));
    assert(rules.subrange(0, 3).last() == rules[2]);
    assert(w@ == put_rules(w0, rules.subrange(0, 3)));
    assert(is_ascii("test") && is_ascii("cargo test --offline --frozen -p $project && touch $out"));
    let w = write_rule(w, "test", "cargo test --offline --frozen -p $project && touch $out");
    assert(rules.subrange(0, 4).drop_last() =~= rules.subrange(0, 3));
    assert(rules.subrange(0, 4).last() == rules[3]);
    assert(w@ == put_rules(w0, rules.subrange(0, 4)));
    assert(is_ascii("release") && is_ascii("cargo build --offline --frozen --release -p $project && touch $out"));
    let w = write_rule(w, "release", "cargo build --offline --frozen --release -p $project && touch $out");
    assert(rules.subrange(0, 5).drop_last() =~= rules.subrange(0, 4));
    assert(rules.subrange(0, 5).last() == rules[4]);
    assert(w@ == put_rules(w0, rules.subrange(0, 5)));
    assert(is_ascii("copy") && is_ascii("cp -- $in $out"));
    let w = write_rule(w, "copy", "cp -- $in $out");
    assert(rules.subrange(0, 6).drop_last() =~= rules.subrange(0, 5));
    assert(rules.subrange(0, 6).last() == rules[5]);
    assert(w@ == put_rules(w0, rules.subrange(0, 6)));
    assert(rules.subrange(0, 6) =~= rules);
    w
}

} // verus!
