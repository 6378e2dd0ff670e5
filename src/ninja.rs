//! Builders that gather a rule or a build definition before writing it with the
//! functions of `ninja_dump`. The variables of a build are kept sorted by name, each
//! name once.

use vstd::prelude::*;
use vstd::slice::slice_to_vec;

use crate::ninja_dump::{build_text, dump_build, dump_rule, pairs_view, rule_text, Variables};

verus! {

/// Byte strings in lexicographic order: `a` comes before `b`.
pub open spec fn lex_lt(a: Seq<u8>, b: Seq<u8>) -> bool
    decreases a.len(),
{
    if a.len() == 0 {
        b.len() > 0
    } else if b.len() == 0 {
        false
    } else if a[0] != b[0] {
        a[0] < b[0]
    } else {
        lex_lt(a.drop_first(), b.drop_first())
    }
}

/// `vars` with `value` under `name`: the pair replaces the one of the same name, or is
/// put before the first name that comes after it.
pub open spec fn inserted(vars: Variables, name: Seq<u8>, value: Seq<u8>) -> Variables
    decreases vars.len(),
{
    if vars.len() == 0 {
        seq![(name, value)]
    } else if lex_lt(vars[0].0, name) {
        seq![vars[0]] + inserted(vars.drop_first(), name, value)
    } else if vars[0].0 == name {
        seq![(name, value)] + vars.drop_first()
    } else {
        seq![(name, value)] + vars
    }
}

/// Two different byte strings are ordered one way or the other.
pub proof fn lemma_lex_total(a: Seq<u8>, b: Seq<u8>)
    ensures
        a == b || lex_lt(a, b) || lex_lt(b, a),
        !(lex_lt(a, b) && lex_lt(b, a)),
        !lex_lt(a, a),
    decreases a.len(),
{
    if a.len() > 0 && b.len() > 0 {
        lemma_lex_total(a.drop_first(), b.drop_first());
        if a[0] == b[0] && a.drop_first() == b.drop_first() {
            assert(a =~= seq![a[0]] + a.drop_first());
            assert(b =~= seq![b[0]] + b.drop_first());
        }
    }
    if a.len() > 0 {
        lemma_lex_total(a.drop_first(), a.drop_first());
    }
}

/// Equal first bytes do not change the order.
proof fn lemma_lex_skip(a: Seq<u8>, b: Seq<u8>, i: int)
    requires
        0 <= i <= a.len(),
        i <= b.len(),
        a.subrange(0, i) == b.subrange(0, i),
    ensures
        lex_lt(a, b) == lex_lt(a.subrange(i, a.len() as int), b.subrange(i, b.len() as int)),
    decreases i,
{
    if i > 0 {
        assert(a[0] == a.subrange(0, i)[0]);
        assert(b[0] == b.subrange(0, i)[0]);
        assert(a.drop_first().subrange(0, i - 1) =~= a.subrange(0, i).drop_first());
        assert(b.drop_first().subrange(0, i - 1) =~= b.subrange(0, i).drop_first());
        lemma_lex_skip(a.drop_first(), b.drop_first(), i - 1);
        assert(a.drop_first().subrange(i - 1, a.len() - 1) =~= a.subrange(i, a.len() as int));
        assert(b.drop_first().subrange(i - 1, b.len() - 1) =~= b.subrange(i, b.len() as int));
    } else {
        assert(a.subrange(0, a.len() as int) =~= a);
        assert(b.subrange(0, b.len() as int) =~= b);
    }
}

/// Whether `a` comes before `b` in lexicographic order.
pub fn lex_less(a: &[u8], b: &[u8]) -> (r: bool)
    ensures
        r == lex_lt(a@, b@),
{
    let mut i: usize = 0;
    while i < a.len() && i < b.len()
        invariant
            i <= a@.len(),
            i <= b@.len(),
            a@.subrange(0, i as int) == b@.subrange(0, i as int),
        decreases a.len() - i,
    {
        if a[i] != b[i] {
            proof {
                lemma_lex_skip(a@, b@, i as int);
                let x = a@.subrange(i as int, a@.len() as int);
                assert(x[0] == a@[i as int]);
            }
            return a[i] < b[i];
        }
        assert(a@.subrange(0, i + 1) =~= a@.subrange(0, i as int).push(a@[i as int]));
        assert(b@.subrange(0, i + 1) =~= b@.subrange(0, i as int).push(b@[i as int]));
        i = i + 1;
    }
    proof {
        lemma_lex_skip(a@, b@, i as int);
    }
    i < b.len()
}

/// A rule, named.
#[derive(Clone, Debug)]
pub struct Rule(Vec<u8>);

/// A rule with its command, ready to be written.
#[derive(Clone, Debug)]
pub struct RuleWithCommand {
    rule_name: Vec<u8>,
    command: Vec<u8>,
}

/// A build definition being gathered.
#[derive(Clone, Debug)]
pub struct Build {
    outputs: Vec<Vec<u8>>,
    rule_name: Vec<u8>,
    inputs: Vec<Vec<u8>>,
    implicit_dependencies: Vec<Vec<u8>>,
    order_only_dependencies: Vec<Vec<u8>>,
    variables: Vec<(Vec<u8>, Vec<u8>)>,
}

pub struct BuildView {
    pub outputs: Seq<Seq<u8>>,
    pub rule_name: Seq<u8>,
    pub inputs: Seq<Seq<u8>>,
    pub implicit_dependencies: Seq<Seq<u8>>,
    pub order_only_dependencies: Seq<Seq<u8>>,
    pub variables: Variables,
}

impl View for Rule {
    type V = Seq<u8>;

    closed spec fn view(&self) -> Seq<u8> {
        self.0@
    }
}

impl View for RuleWithCommand {
    type V = (Seq<u8>, Seq<u8>);

    closed spec fn view(&self) -> (Seq<u8>, Seq<u8>) {
        (self.rule_name@, self.command@)
    }
}

impl View for Build {
    type V = BuildView;

    closed spec fn view(&self) -> BuildView {
        BuildView {
            outputs: self.outputs.deep_view(),
            rule_name: self.rule_name@,
            inputs: self.inputs.deep_view(),
            implicit_dependencies: self.implicit_dependencies.deep_view(),
            order_only_dependencies: self.order_only_dependencies.deep_view(),
            variables: pairs_view(self.variables@),
        }
    }
}

/// The rule named `name`.
pub fn rule(name: &[u8]) -> (r: Rule)
    ensures
        r@ == name@,
{
    Rule(slice_to_vec(name))
}

impl Rule {
    /// The rule with its command.
    pub fn command(self, command: &[u8]) -> (r: RuleWithCommand)
        ensures
            r@ == (self@, command@),
    {
        RuleWithCommand { rule_name: self.0, command: slice_to_vec(command) }
    }

    /// A build of `outputs` with this rule, without inputs, dependencies or variables.
    pub fn outputs(self, outputs: Vec<Vec<u8>>) -> (r: Build)
        ensures
            r@ == (BuildView {
                outputs: outputs.deep_view(),
                rule_name: self@,
                inputs: Seq::empty(),
                implicit_dependencies: Seq::empty(),
                order_only_dependencies: Seq::empty(),
                variables: Seq::empty(),
            }),
    {
        let r = Build {
            outputs,
            rule_name: self.0,
            inputs: Vec::new(),
            implicit_dependencies: Vec::new(),
            order_only_dependencies: Vec::new(),
            variables: Vec::new(),
        };
        assert(r@.inputs =~= Seq::<Seq<u8>>::empty());
        assert(r@.implicit_dependencies =~= Seq::<Seq<u8>>::empty());
        assert(r@.order_only_dependencies =~= Seq::<Seq<u8>>::empty());
        assert(r@.variables =~= Seq::<(Seq<u8>, Seq<u8>)>::empty());
        r
    }
}

impl RuleWithCommand {
    /// Writes the rule definition.
    pub fn dump_rule(self, writer: &mut Vec<u8>)
        ensures
            final(writer)@ == old(writer)@ + rule_text(self@.0, self@.1),
    {
        dump_rule(writer, self.rule_name.as_slice(), self.command.as_slice())
    }
}

impl Build {
    /// The same build with `new_value` as its inputs.
    pub fn inputs(self, new_value: Vec<Vec<u8>>) -> (r: Build)
        ensures
            r@ == (BuildView { inputs: new_value.deep_view(), ..self@ }),
    {
        Build { inputs: new_value, ..self }
    }

    /// The same build with `new_value` as its implicit dependencies.
    pub fn implicit_dependencies(self, new_value: Vec<Vec<u8>>) -> (r: Build)
        ensures
            r@ == (BuildView { implicit_dependencies: new_value.deep_view(), ..self@ }),
    {
        Build { implicit_dependencies: new_value, ..self }
    }

    /// The same build with `new_value` as its order-only dependencies.
    pub fn order_only_dependencies(self, new_value: Vec<Vec<u8>>) -> (r: Build)
        ensures
            r@ == (BuildView { order_only_dependencies: new_value.deep_view(), ..self@ }),
    {
        Build { order_only_dependencies: new_value, ..self }
    }

    /// The same build with `value` under `variable`, which replaces an earlier value.
    pub fn variable(self, variable: Vec<u8>, value: Vec<u8>) -> (r: Build)
        ensures
            r@ == (BuildView { variables: inserted(self@.variables, variable@, value@), ..self@ }),
    {
        let mut build = self;
        let ghost old_vars = pairs_view(build.variables@);
        let n = build.variables.len();
        let mut p: usize = 0;
        while p < n && lex_less(build.variables[p].0.as_slice(), variable.as_slice())
            invariant
                n == build.variables.len(),
                old_vars == pairs_view(build.variables@),
                p <= n,
                forall|i: int| 0 <= i < p ==> lex_lt(#[trigger] old_vars[i].0, variable@),
            decreases n - p,
        {
            p = p + 1;
        }
        let ghost k = variable@;
        let ghost v = value@;
        if p < n && !lex_less(variable.as_slice(), build.variables[p].0.as_slice()) {
            proof {
                lemma_lex_total(old_vars[p as int].0, k);
                lemma_inserted_at(old_vars, k, v, p as nat);
            }
            build.variables.remove(p);
            build.variables.insert(p, (variable, value));
            assert(pairs_view(build.variables@) =~= old_vars.subrange(0, p as int) + seq![(k, v)]
                + old_vars.subrange(p + 1, n as int));
        } else {
            proof {
                if p < n {
                    lemma_lex_total(old_vars[p as int].0, k);
                }
                lemma_inserted_at(old_vars, k, v, p as nat);
            }
            build.variables.insert(p, (variable, value));
            assert(pairs_view(build.variables@) =~= old_vars.subrange(0, p as int) + seq![(k, v)]
                + old_vars.subrange(p as int, n as int));
        }
        build
    }

    /// Writes the build definition.
    pub fn dump_build(self, writer: &mut Vec<u8>)
        ensures
            final(writer)@ == old(writer)@ + build_text(
                self@.outputs,
                self@.rule_name,
                self@.inputs,
                self@.implicit_dependencies,
                self@.order_only_dependencies,
                self@.variables,
            ),
    {
        dump_build(
            writer,
            &self.outputs,
            self.rule_name.as_slice(),
            &self.inputs,
            &self.implicit_dependencies,
            &self.order_only_dependencies,
            &self.variables,
        )
    }
}

/// Where the names before `p` come before `name` and the one at `p`, if any, does not,
/// the insertion keeps them and puts the pair at `p`.
proof fn lemma_inserted_at(vars: Variables, name: Seq<u8>, value: Seq<u8>, p: nat)
    requires
        p <= vars.len(),
        forall|i: int| 0 <= i < p ==> lex_lt(#[trigger] vars[i].0, name),
        p < vars.len() ==> !lex_lt(vars[p as int].0, name),
    ensures
        p < vars.len() && vars[p as int].0 == name ==> inserted(vars, name, value) == vars.subrange(
            0,
            p as int,
        ) + seq![(name, value)] + vars.subrange(p + 1int, vars.len() as int),
        !(p < vars.len() && vars[p as int].0 == name) ==> inserted(vars, name, value)
            == vars.subrange(0, p as int) + seq![(name, value)] + vars.subrange(
            p as int,
            vars.len() as int,
        ),
    decreases p,
{
    if p == 0 {
        assert(vars.subrange(0, 0) + seq![(name, value)] + vars.subrange(0, vars.len() as int)
            =~= seq![(name, value)] + vars);
        if vars.len() > 0 {
            assert(vars.subrange(0, 0) + seq![(name, value)] + vars.subrange(1, vars.len() as int)
                =~= seq![(name, value)] + vars.drop_first());
        }
    } else {
        let rest = vars.drop_first();
        assert forall|i: int| 0 <= i < p - 1 implies lex_lt(#[trigger] rest[i].0, name) by {
            assert(rest[i] == vars[i + 1]);
        }
        assert(lex_lt(vars[0].0, name));
        lemma_inserted_at(rest, name, value, (p - 1) as nat);
        assert(vars.subrange(0, p as int) =~= seq![vars[0]] + rest.subrange(0, p - 1));
        assert(vars.subrange(p as int, vars.len() as int) =~= rest.subrange(p - 1, rest.len() as int));
        if p < vars.len() {
            assert(vars.subrange(p + 1int, vars.len() as int) =~= rest.subrange(p as int, rest.len() as int));
            assert(vars[p as int] == rest[p - 1]);
        }
    }
}

} // verus!
