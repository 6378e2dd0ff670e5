//! A writer of Ninja build files with the typestate pattern: each step returns the
//! value that allows the steps that may follow. Paths are escaped and long lines are
//! wrapped with `$` continuations. The text is accumulated in a byte buffer.

use vstd::prelude::*;

use crate::ninja_dump::put_bytes;

verus! {

/// The layout of the written file: the width after which lines are wrapped.
#[must_use]
#[derive(Clone, Copy, Debug)]
pub struct Config {
    width: usize,
}

impl View for Config {
    type V = nat;

    closed spec fn view(&self) -> nat {
        self.width as nat
    }
}

impl Config {
    pub fn with_width(width: usize) -> (r: Self)
        ensures
            r@ == width as nat,
    {
        Self { width }
    }
}

/// The state of a writer: the wrapping width, the bytes written so far, and the size
/// of the current line as the wrapping rule counts it.
pub struct WriterView {
    pub width: nat,
    pub bytes: Seq<u8>,
    pub line: nat,
}

/// `x`, or the largest `usize` when `x` is beyond it.
pub open spec fn sat(x: nat) -> nat {
    if x > usize::MAX {
        usize::MAX as nat
    } else {
        x
    }
}

/// The bytes that Ninja gives a meaning to in a path: `$`, space, `:`, `|`, `#` and the
/// line feed.
pub open spec fn is_special(b: u8) -> bool {
    b == '$' as u8 || b == ' ' as u8 || b == ':' as u8 || b == '|' as u8 || b == '#' as u8 || b
        == '\n' as u8
}

/// `p` with a `$` put before each special byte.
pub open spec fn escaped(p: Seq<u8>) -> Seq<u8>
    decreases p.len(),
{
    if p.len() == 0 {
        Seq::empty()
    } else {
        let last = p.last();
        escaped(p.drop_last()) + if is_special(last) {
            seq!['$' as u8, last]
        } else {
            seq![last]
        }
    }
}

/// The continuation that wraps a line.
pub open spec fn line_break() -> Seq<u8> {
    seq!['$' as u8, '\n' as u8, ' ' as u8, ' ' as u8]
}

/// `text` appended, after a line break when the line, with `margin` more bytes, would be
/// wider than the configured width.
pub open spec fn put_wrapped(w: WriterView, text: Seq<u8>, margin: nat) -> WriterView {
    if w.line + text.len() + margin > w.width {
        WriterView { width: w.width, bytes: w.bytes + line_break() + text, line: sat(2 + text.len()) }
    } else {
        WriterView { width: w.width, bytes: w.bytes + text, line: sat(w.line + text.len()) }
    }
}

/// `s` appended, the line counted `count` bytes longer.
pub open spec fn put_plain(w: WriterView, s: Seq<u8>, count: nat) -> WriterView {
    WriterView { width: w.width, bytes: w.bytes + s, line: sat(w.line + count) }
}

/// A separator and then an escaped path. Room is kept for ` || $` after the path.
pub open spec fn put_path(w: WriterView, sep: Seq<u8>, count: nat, path: Seq<u8>) -> WriterView {
    put_wrapped(put_plain(w, sep, count), escaped(path), 5)
}

/// Each path of `paths`, in order, after a space.
pub open spec fn put_paths(w: WriterView, paths: Seq<Seq<u8>>) -> WriterView
    decreases paths.len(),
{
    if paths.len() == 0 {
        w
    } else {
        put_path(put_paths(w, paths.drop_last()), seq![' ' as u8], 1, paths.last())
    }
}

/// A new line: the line is counted empty.
pub open spec fn put_end(w: WriterView) -> WriterView {
    WriterView { width: w.width, bytes: w.bytes.push('\n' as u8), line: 0 }
}

pub open spec fn rule_keyword() -> Seq<u8> {
    seq!['r' as u8, 'u' as u8, 'l' as u8, 'e' as u8, ' ' as u8]
}

pub open spec fn command_keyword() -> Seq<u8> {
    seq![
        '\n' as u8, ' ' as u8, ' ' as u8, 'c' as u8, 'o' as u8, 'm' as u8, 'm' as u8, 'a' as u8,
        'n' as u8, 'd' as u8, ' ' as u8, '=' as u8, ' ' as u8,
    ]
}

pub open spec fn build_keyword() -> Seq<u8> {
    seq!['b' as u8, 'u' as u8, 'i' as u8, 'l' as u8, 'd' as u8]
}

/// `rule <name>`.
pub open spec fn put_rule(w: WriterView, name: Seq<u8>) -> WriterView {
    WriterView { width: w.width, bytes: w.bytes + rule_keyword() + name, line: sat(5 + name.len()) }
}

/// `\n  command = <command>`.
pub open spec fn put_command(w: WriterView, command: Seq<u8>) -> WriterView {
    WriterView {
        width: w.width,
        bytes: w.bytes + command_keyword() + command,
        line: sat(12 + command.len()),
    }
}

/// `build`.
pub open spec fn put_build(w: WriterView) -> WriterView {
    WriterView { width: w.width, bytes: w.bytes + build_keyword(), line: 5 }
}

/// `: <rule name>`, the name not escaped. Room is kept for ` $` after it.
pub open spec fn put_build_rule(w: WriterView, name: Seq<u8>) -> WriterView {
    put_wrapped(put_plain(w, seq![':' as u8, ' ' as u8], 2), name, 2)
}

/// ` | <first> <second> ...`, nothing when there is no dependency.
pub open spec fn put_implicit_dependencies(w: WriterView, deps: Seq<Seq<u8>>) -> WriterView {
    if deps.len() == 0 {
        w
    } else {
        put_paths(
            put_path(w, seq![' ' as u8, '|' as u8, ' ' as u8], 3, deps[0]),
            deps.subrange(1, deps.len() as int),
        )
    }
}

/// ` || <dependency>`, the line counted three bytes longer before the path.
pub open spec fn put_order_only_dependency(w: WriterView, dep: Seq<u8>) -> WriterView {
    put_path(w, seq![' ' as u8, '|' as u8, '|' as u8, ' ' as u8], 3, dep)
}

/// `\n  <variable> = <value>`.
pub open spec fn put_variable(w: WriterView, variable: Seq<u8>, value: Seq<u8>) -> WriterView {
    WriterView {
        width: w.width,
        bytes: w.bytes + seq!['\n' as u8, ' ' as u8, ' ' as u8] + variable + seq![
            ' ' as u8,
            '=' as u8,
            ' ' as u8,
        ] + value,
        line: sat(5 + variable.len() + value.len()),
    }
}

fn is_special_byte(b: u8) -> (r: bool)
    ensures
        r == is_special(b),
{
    b == '$' as u8 || b == ' ' as u8 || b == ':' as u8 || b == '|' as u8 || b == '#' as u8 || b
        == '\n' as u8
}

/// `path` with a `$` put before each byte in `$ :|#\n`.
///
/// Ninja's own `ninja_syntax.py` escapes `$`, space and `:`. A `|` must be escaped too,
/// or a file called `|` or `||` would read as a separator; so must `#`, which starts a
/// comment, and the line feed, since newlines are significant.
pub fn escape_path(path: &[u8]) -> (r: Vec<u8>)
    ensures
        r@ == escaped(path@),
{
    let mut r: Vec<u8> = Vec::new();
    let mut i: usize = 0;
    while i < path.len()
        invariant
            i <= path@.len(),
            r@ == escaped(path@.subrange(0, i as int)),
        decreases path.len() - i,
    {
        let b = path[i];
        if is_special_byte(b) {
            r.push('$' as u8);
        }
        r.push(b);
        proof {
            let p = path@.subrange(0, i + 1);
            assert(p.drop_last() =~= path@.subrange(0, i as int));
            assert(p.last() == b);
        }
        assert(r@ =~= escaped(path@.subrange(0, i + 1)));
        i = i + 1;
    }
    assert(path@.subrange(0, path@.len() as int) =~= path@);
    r
}

/// Writes Ninja definitions into a byte buffer.
pub struct NinjaWriter {
    config: Config,
    writer: Vec<u8>,
    current_line_size: usize,
}

impl View for NinjaWriter {
    type V = WriterView;

    closed spec fn view(&self) -> WriterView {
        WriterView { width: self.config@, bytes: self.writer@, line: self.current_line_size as nat }
    }
}

impl NinjaWriter {
    /// A writer that appends to `writer`.
    pub fn new(config: Config, writer: Vec<u8>) -> (r: Self)
        ensures
            r@ == (WriterView { width: config@, bytes: writer@, line: 0 }),
    {
        Self { config, writer, current_line_size: 0 }
    }

    /// The bytes written, the initial ones included.
    pub fn into_bytes(self) -> (r: Vec<u8>)
        ensures
            r@ == self@.bytes,
    {
        self.writer
    }

    /// Starts a rule definition: `rule <name>`.
    pub fn rule(self, rule_name: &[u8]) -> (r: AfterRule)
        requires
            self@.line == 0,
        ensures
            r@ == put_rule(self@, rule_name@),
    {
        let mut w = self;
        put_bytes(&mut w.writer, &['r' as u8, 'u' as u8, 'l' as u8, 'e' as u8, ' ' as u8]);
        put_bytes(&mut w.writer, rule_name);
        w.current_line_size = 5usize.saturating_add(rule_name.len());
        proof {
            assert(w.writer@ =~= self@.bytes + rule_keyword() + rule_name@);
        }
        AfterRule(w)
    }

    /// Starts a build definition: `build`.
    pub fn build(self) -> (r: AfterBuild)
        requires
            self@.line == 0,
        ensures
            r@ == put_build(self@),
    {
        let mut w = self;
        put_bytes(&mut w.writer, &['b' as u8, 'u' as u8, 'i' as u8, 'l' as u8, 'd' as u8]);
        w.current_line_size = 5;
        proof {
            assert(w.writer@ =~= self@.bytes + build_keyword());
        }
        AfterBuild(w)
    }

    fn write_command(&mut self, command: &[u8])
        ensures
            final(self)@ == put_command(old(self)@, command@),
    {
        put_bytes(
            &mut self.writer,
            &[
                '\n' as u8,
                ' ' as u8,
                ' ' as u8,
                'c' as u8,
                'o' as u8,
                'm' as u8,
                'm' as u8,
                'a' as u8,
                'n' as u8,
                'd' as u8,
                ' ' as u8,
                '=' as u8,
                ' ' as u8,
            ],
        );
        put_bytes(&mut self.writer, command);
        self.current_line_size = 12usize.saturating_add(command.len());
        assert(self.writer@ =~= old(self)@.bytes + command_keyword() + command@);
    }

    fn write_end(&mut self)
        ensures
            final(self)@ == put_end(old(self)@),
    {
        self.writer.push('\n' as u8);
        self.current_line_size = 0;
    }

    fn write_plain(&mut self, s: &[u8], count: usize)
        ensures
            final(self)@ == put_plain(old(self)@, s@, count as nat),
    {
        put_bytes(&mut self.writer, s);
        self.current_line_size = self.current_line_size.saturating_add(count);
    }

    fn write_wrapped(&mut self, text: &[u8], margin: usize)
        ensures
            final(self)@ == put_wrapped(old(self)@, text@, margin as nat),
    {
        let n = text.len();
        if (self.current_line_size as u128) + (n as u128) + (margin as u128) > (
        self.config.width as u128) {
            put_bytes(&mut self.writer, &['$' as u8, '\n' as u8, ' ' as u8, ' ' as u8]);
            put_bytes(&mut self.writer, text);
            self.current_line_size = 2usize.saturating_add(n);
            assert(self.writer@ =~= old(self)@.bytes + line_break() + text@);
        } else {
            put_bytes(&mut self.writer, text);
            self.current_line_size = self.current_line_size.saturating_add(n);
        }
    }

    /// Writes an escaped path, wrapping the line first when the path and a following
    /// ` || $` would not fit.
    fn write_escaped_path(&mut self, path: &[u8])
        ensures
            final(self)@ == put_wrapped(old(self)@, escaped(path@), 5),
    {
        let e = escape_path(path);
        self.write_wrapped(e.as_slice(), 5);
    }

    fn write_path(&mut self, sep: &[u8], count: usize, path: &[u8])
        ensures
            final(self)@ == put_path(old(self)@, sep@, count as nat, path@),
    {
        self.write_plain(sep, count);
        self.write_escaped_path(path);
    }

    fn write_paths(&mut self, paths: &Vec<Vec<u8>>, from: usize)
        requires
            from <= paths.len(),
        ensures
            final(self)@ == put_paths(
                old(self)@,
                paths.deep_view().subrange(from as int, paths.len() as int),
            ),
    {
        let ghost ps = paths.deep_view().subrange(from as int, paths.len() as int);
        let ghost w0 = self@;
        let mut i: usize = from;
        assert(ps.subrange(0, 0) =~= Seq::<Seq<u8>>::empty());
        while i < paths.len()
            invariant
                from <= i <= paths.len(),
                ps == paths.deep_view().subrange(from as int, paths.len() as int),
                self@ == put_paths(w0, ps.subrange(0, i - from)),
            decreases paths.len() - i,
        {
            let space: &[u8] = &[' ' as u8];
            assert(space@ =~= seq![' ' as u8]);
            self.write_path(space, 1, paths[i].as_slice());
            proof {
                let q = ps.subrange(0, i + 1 - from);
                assert(q.drop_last() =~= ps.subrange(0, i - from));
                assert(q.last() == paths@[i as int]@);
            }
            i = i + 1;
        }
        assert(ps.subrange(0, paths.len() - from) =~= ps);
    }

    fn write_variable_and_value(&mut self, variable: &[u8], value: &[u8])
        ensures
            final(self)@ == put_variable(old(self)@, variable@, value@),
    {
        put_bytes(&mut self.writer, &['\n' as u8, ' ' as u8, ' ' as u8]);
        put_bytes(&mut self.writer, variable);
        put_bytes(&mut self.writer, &[' ' as u8, '=' as u8, ' ' as u8]);
        put_bytes(&mut self.writer, value);
        self.current_line_size = 5usize.saturating_add(variable.len()).saturating_add(value.len());
        assert(self.writer@ =~= old(self)@.bytes + seq!['\n' as u8, ' ' as u8, ' ' as u8]
            + variable@ + seq![' ' as u8, '=' as u8, ' ' as u8] + value@);
    }
}

/// After `rule <name>`: a command follows.
#[must_use]
pub struct AfterRule(NinjaWriter);

/// After the command of a rule: the rule ends.
#[must_use]
pub struct AfterCommand(NinjaWriter);

/// After `build`: an output follows.
#[must_use]
pub struct AfterBuild(NinjaWriter);

/// After the output of a build: its rule follows.
#[must_use]
pub struct AfterOutput(NinjaWriter);

/// After the rule of a build: inputs may follow.
#[must_use]
pub struct AfterBuildRule(NinjaWriter);

/// After an input: more inputs, implicit dependencies, an order-only dependency or a
/// variable may follow.
#[must_use]
pub struct AfterInput(NinjaWriter);

/// After an implicit dependency: more of them, or an order-only dependency.
#[must_use]
pub struct AfterImplicitDependency(NinjaWriter);

/// After an order-only dependency: the build ends.
#[must_use]
pub struct AfterOrderOnlyDependency(NinjaWriter);

/// After a variable and its value: the build ends.
#[must_use]
pub struct AfterVariableAndValue(NinjaWriter);

#[must_use]
pub enum AfterBuildRuleOrInput {
    AfterBuildRule(AfterBuildRule),
    AfterInput(AfterInput),
}

#[must_use]
pub enum AfterInputOrImplicitDependency {
    AfterInput(AfterInput),
    AfterImplicitDependency(AfterImplicitDependency),
}

impl View for AfterRule {
    type V = WriterView;

    closed spec fn view(&self) -> WriterView {
        self.0@
    }
}

impl View for AfterCommand {
    type V = WriterView;

    closed spec fn view(&self) -> WriterView {
        self.0@
    }
}

impl View for AfterBuild {
    type V = WriterView;

    closed spec fn view(&self) -> WriterView {
        self.0@
    }
}

impl View for AfterOutput {
    type V = WriterView;

    closed spec fn view(&self) -> WriterView {
        self.0@
    }
}

impl View for AfterBuildRule {
    type V = WriterView;

    closed spec fn view(&self) -> WriterView {
        self.0@
    }
}

impl View for AfterInput {
    type V = WriterView;

    closed spec fn view(&self) -> WriterView {
        self.0@
    }
}

impl View for AfterImplicitDependency {
    type V = WriterView;

    closed spec fn view(&self) -> WriterView {
        self.0@
    }
}

impl View for AfterOrderOnlyDependency {
    type V = WriterView;

    closed spec fn view(&self) -> WriterView {
        self.0@
    }
}

impl View for AfterVariableAndValue {
    type V = WriterView;

    closed spec fn view(&self) -> WriterView {
        self.0@
    }
}

impl View for AfterBuildRuleOrInput {
    type V = WriterView;

    open spec fn view(&self) -> WriterView {
        match self {
            AfterBuildRuleOrInput::AfterBuildRule(s) => s@,
            AfterBuildRuleOrInput::AfterInput(s) => s@,
        }
    }
}

impl View for AfterInputOrImplicitDependency {
    type V = WriterView;

    open spec fn view(&self) -> WriterView {
        match self {
            AfterInputOrImplicitDependency::AfterInput(s) => s@,
            AfterInputOrImplicitDependency::AfterImplicitDependency(s) => s@,
        }
    }
}

impl AfterRule {
    /// `\n  command = <command>`.
    pub fn command(self, command: &[u8]) -> (r: AfterCommand)
        ensures
            r@ == put_command(self@, command@),
    {
        let mut w = self.0;
        w.write_command(command);
        AfterCommand(w)
    }
}

impl AfterCommand {
    /// Ends the rule definition with a new line and gives the writer back.
    pub fn end(self) -> (r: NinjaWriter)
        ensures
            r@ == put_end(self@),
            r@.line == 0,
    {
        let mut w = self.0;
        w.write_end();
        w
    }
}

impl AfterBuild {
    /// ` <output>`, escaped.
    pub fn output(self, output: &[u8]) -> (r: AfterOutput)
        ensures
            r@ == put_path(self@, seq![' ' as u8], 1, output@),
    {
        let space: &[u8] = &[' ' as u8];
        assert(space@ =~= seq![' ' as u8]);
        let mut w = self.0;
        w.write_path(space, 1, output);
        AfterOutput(w)
    }
}

impl AfterOutput {
    /// `: <rule name>`.
    pub fn rule(self, rule_name: &[u8]) -> (r: AfterBuildRule)
        ensures
            r@ == put_build_rule(self@, rule_name@),
    {
        let sep: &[u8] = &[':' as u8, ' ' as u8];
        assert(sep@ =~= seq![':' as u8, ' ' as u8]);
        let mut w = self.0;
        w.write_plain(sep, 2);
        w.write_wrapped(rule_name, 2);
        AfterBuildRule(w)
    }
}

impl AfterBuildRule {
    /// ` <input>`, escaped.
    pub fn input(self, input: &[u8]) -> (r: AfterInput)
        ensures
            r@ == put_path(self@, seq![' ' as u8], 1, input@),
    {
        let space: &[u8] = &[' ' as u8];
        assert(space@ =~= seq![' ' as u8]);
        let mut w = self.0;
        w.write_path(space, 1, input);
        AfterInput(w)
    }

    /// Each input after a space; with no input, the step stays where it is.
    pub fn inputs(self, inputs: &Vec<Vec<u8>>) -> (r: AfterBuildRuleOrInput)
        ensures
            r@ == put_paths(self@, inputs.deep_view()),
            inputs.len() == 0 <==> r is AfterBuildRule,
    {
        if inputs.len() == 0 {
            AfterBuildRuleOrInput::AfterBuildRule(self)
        } else {
            let mut w = self.0;
            w.write_paths(inputs, 0);
            assert(inputs.deep_view().subrange(0, inputs.len() as int) =~= inputs.deep_view());
            AfterBuildRuleOrInput::AfterInput(AfterInput(w))
        }
    }

    /// Ends the build definition with a new line and gives the writer back.
    pub fn end(self) -> (r: NinjaWriter)
        ensures
            r@ == put_end(self@),
            r@.line == 0,
    {
        let mut w = self.0;
        w.write_end();
        w
    }
}

impl AfterInput {
    /// Each further input after a space.
    pub fn inputs(self, inputs: &Vec<Vec<u8>>) -> (r: AfterInput)
        ensures
            r@ == put_paths(self@, inputs.deep_view()),
    {
        let mut w = self.0;
        w.write_paths(inputs, 0);
        assert(inputs.deep_view().subrange(0, inputs.len() as int) =~= inputs.deep_view());
        AfterInput(w)
    }

    /// ` | <first> <second> ...`; with no dependency, the step stays where it is.
    pub fn implicit_dependencies(self, dependencies: &Vec<Vec<u8>>) -> (r: AfterInputOrImplicitDependency)
        ensures
            r@ == put_implicit_dependencies(self@, dependencies.deep_view()),
            dependencies.len() == 0 <==> r is AfterInput,
    {
        if dependencies.len() == 0 {
            AfterInputOrImplicitDependency::AfterInput(self)
        } else {
            let sep: &[u8] = &[' ' as u8, '|' as u8, ' ' as u8];
            assert(sep@ =~= seq![' ' as u8, '|' as u8, ' ' as u8]);
            assert(dependencies.deep_view()[0] == dependencies@[0]@);
            let mut w = self.0;
            w.write_path(sep, 3, dependencies[0].as_slice());
            w.write_paths(dependencies, 1);
            AfterInputOrImplicitDependency::AfterImplicitDependency(AfterImplicitDependency(w))
        }
    }

    /// ` || <dependency>`.
    pub fn order_only_dependency(self, dependency: &[u8]) -> (r: AfterOrderOnlyDependency)
        ensures
            r@ == put_order_only_dependency(self@, dependency@),
    {
        let sep: &[u8] = &[' ' as u8, '|' as u8, '|' as u8, ' ' as u8];
        assert(sep@ =~= seq![' ' as u8, '|' as u8, '|' as u8, ' ' as u8]);
        let mut w = self.0;
        w.write_path(sep, 3, dependency);
        AfterOrderOnlyDependency(w)
    }

    /// `\n  <variable> = <value>`.
    pub fn variable_and_value(self, variable: &[u8], value: &[u8]) -> (r: AfterVariableAndValue)
        ensures
            r@ == put_variable(self@, variable@, value@),
    {
        let mut w = self.0;
        w.write_variable_and_value(variable, value);
        AfterVariableAndValue(w)
    }

    /// Ends the build definition with a new line and gives the writer back.
    pub fn end(self) -> (r: NinjaWriter)
        ensures
            r@ == put_end(self@),
            r@.line == 0,
    {
        let mut w = self.0;
        w.write_end();
        w
    }
}

impl AfterImplicitDependency {
    /// ` || <dependency>`.
    pub fn order_only_dependency(self, dependency: &[u8]) -> (r: AfterOrderOnlyDependency)
        ensures
            r@ == put_order_only_dependency(self@, dependency@),
    {
        let sep: &[u8] = &[' ' as u8, '|' as u8, '|' as u8, ' ' as u8];
        assert(sep@ =~= seq![' ' as u8, '|' as u8, '|' as u8, ' ' as u8]);
        let mut w = self.0;
        w.write_path(sep, 3, dependency);
        AfterOrderOnlyDependency(w)
    }
}

impl AfterOrderOnlyDependency {
    /// Ends the build definition with a new line and gives the writer back.
    pub fn end(self) -> (r: NinjaWriter)
        ensures
            r@ == put_end(self@),
            r@.line == 0,
    {
        let mut w = self.0;
        w.write_end();
        w
    }
}

impl AfterVariableAndValue {
    /// Ends the build definition with a new line and gives the writer back.
    pub fn end(self) -> (r: NinjaWriter)
        ensures
            r@ == put_end(self@),
            r@.line == 0,
    {
        let mut w = self.0;
        w.write_end();
        w
    }
}

impl AfterBuildRuleOrInput {
    /// Ends the build definition with a new line and gives the writer back.
    pub fn end(self) -> (r: NinjaWriter)
        ensures
            r@ == put_end(self@),
            r@.line == 0,
    {
        match self {
            AfterBuildRuleOrInput::AfterBuildRule(step) => step.end(),
            AfterBuildRuleOrInput::AfterInput(step) => step.end(),
        }
    }
}

impl AfterInputOrImplicitDependency {
    /// ` || <dependency>`.
    pub fn order_only_dependency(self, dependency: &[u8]) -> (r: AfterOrderOnlyDependency)
        ensures
            r@ == put_order_only_dependency(self@, dependency@),
    {
        match self {
            AfterInputOrImplicitDependency::AfterInput(step) => step.order_only_dependency(dependency),
            AfterInputOrImplicitDependency::AfterImplicitDependency(step) => step.order_only_dependency(
                dependency,
            ),
        }
    }
}

} // verus!
