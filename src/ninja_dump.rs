//! Rule and build definitions of a Ninja build file, written in one go into a byte
//! buffer, without wrapping long lines.

use vstd::prelude::*;

use crate::ninja_writer::{build_keyword, command_keyword, escape_path, escaped, rule_keyword};

verus! {

pub type Variables = Seq<(Seq<u8>, Seq<u8>)>;

/// `rule <name>\n  command = <command>\n`.
pub open spec fn rule_text(rule_name: Seq<u8>, command: Seq<u8>) -> Seq<u8> {
    rule_keyword() + rule_name + command_keyword() + command + seq!['\n' as u8]
}

/// Each path escaped, after a space.
pub open spec fn spaced(paths: Seq<Seq<u8>>) -> Seq<u8>
    decreases paths.len(),
{
    if paths.len() == 0 {
        Seq::empty()
    } else {
        spaced(paths.drop_last()) + seq![' ' as u8] + escaped(paths.last())
    }
}

/// `sep` and the first path, then the others after a space; nothing without a path.
pub open spec fn listed_after(sep: Seq<u8>, paths: Seq<Seq<u8>>) -> Seq<u8> {
    if paths.len() == 0 {
        Seq::empty()
    } else {
        sep + escaped(paths[0]) + spaced(paths.subrange(1, paths.len() as int))
    }
}

/// `\n  <variable> = <value>` for each pair, in order.
pub open spec fn variables_text(vars: Variables) -> Seq<u8>
    decreases vars.len(),
{
    if vars.len() == 0 {
        Seq::empty()
    } else {
        variables_text(vars.drop_last()) + seq!['\n' as u8, ' ' as u8, ' ' as u8] + vars.last().0
            + seq![' ' as u8, '=' as u8, ' ' as u8] + vars.last().1
    }
}

/// A whole build definition.
pub open spec fn build_text(
    outputs: Seq<Seq<u8>>,
    rule_name: Seq<u8>,
    inputs: Seq<Seq<u8>>,
    implicit_dependencies: Seq<Seq<u8>>,
    order_only_dependencies: Seq<Seq<u8>>,
    variables: Variables,
) -> Seq<u8> {
    build_keyword() + spaced(outputs) + seq![':' as u8, ' ' as u8] + rule_name + spaced(inputs)
        + listed_after(seq![' ' as u8, '|' as u8, ' ' as u8], implicit_dependencies)
        + listed_after(seq![' ' as u8, '|' as u8, '|' as u8, ' ' as u8], order_only_dependencies)
        + variables_text(variables) + seq!['\n' as u8]
}

/// Appends `b` to `w`.
pub(crate) fn put_bytes(w: &mut Vec<u8>, b: &[u8])
    ensures
        final(w)@ == old(w)@ + b@,
{
    let ghost w0 = w@;
    let mut i: usize = 0;
    while i < b.len()
        invariant
            i <= b@.len(),
            w@ == w0 + b@.subrange(0, i as int),
        decreases b.len() - i,
    {
        w.push(b[i]);
        assert(w@ =~= w0 + b@.subrange(0, i + 1));
        i = i + 1;
    }
    assert(b@.subrange(0, b@.len() as int) =~= b@);
}

/// Writes `rule <name>\n  command = <command>\n`.
pub fn dump_rule(writer: &mut Vec<u8>, rule_name: &[u8], command: &[u8])
    ensures
        final(writer)@ == old(writer)@ + rule_text(rule_name@, command@),
{
    put_bytes(writer, &['r' as u8, 'u' as u8, 'l' as u8, 'e' as u8, ' ' as u8]);
    put_bytes(writer, rule_name);
    put_bytes(
        writer,
        &[
            '\n' as u8,
            ' ' as u8,
            ' ' as u8,
            'c' as u8,
            'o' as u8,
            'm' as u8,
            'm' as u8,
            'a' as u8,
            'n' as u8,
            'd' as u8,
            ' ' as u8,
            '=' as u8,
            ' ' as u8,
        ],
    );
    put_bytes(writer, command);
    writer.push('\n' as u8);
    assert(writer@ =~= old(writer)@ + rule_text(rule_name@, command@));
}

/// Writes each of `paths[from..]` escaped, after a space.
fn dump_spaced(writer: &mut Vec<u8>, paths: &Vec<Vec<u8>>, from: usize)
    requires
        from <= paths.len(),
    ensures
        final(writer)@ == old(writer)@ + spaced(
            paths.deep_view().subrange(from as int, paths.len() as int),
        ),
{
    let ghost ps = paths.deep_view().subrange(from as int, paths.len() as int);
    let ghost w0 = writer@;
    let mut i: usize = from;
    assert(ps.subrange(0, 0) =~= Seq::<Seq<u8>>::empty());
    assert(w0 + spaced(ps.subrange(0, 0)) =~= w0);
    while i < paths.len()
        invariant
            from <= i <= paths.len(),
            ps == paths.deep_view().subrange(from as int, paths.len() as int),
            writer@ == w0 + spaced(ps.subrange(0, i - from)),
        decreases paths.len() - i,
    {
        writer.push(' ' as u8);
        let e = escape_path(paths[i].as_slice());
        put_bytes(writer, e.as_slice());
        proof {
            let q = ps.subrange(0, i + 1 - from);
            assert(q.drop_last() =~= ps.subrange(0, i - from));
            assert(q.last() == paths@[i as int]@);
            assert(writer@ =~= w0 + spaced(q));
        }
        i = i + 1;
    }
    assert(ps.subrange(0, paths.len() - from) =~= ps);
}

/// Writes `sep` and the first path, then the others after a space.
fn dump_listed_after(writer: &mut Vec<u8>, sep: &[u8], paths: &Vec<Vec<u8>>)
    ensures
        final(writer)@ == old(writer)@ + listed_after(sep@, paths.deep_view()),
{
    if paths.len() > 0 {
        put_bytes(writer, sep);
        let e = escape_path(paths[0].as_slice());
        put_bytes(writer, e.as_slice());
        dump_spaced(writer, paths, 1);
        assert(paths.deep_view()[0] == paths@[0]@);
        assert(writer@ =~= old(writer)@ + listed_after(sep@, paths.deep_view()));
    } else {
        assert(writer@ =~= old(writer)@ + listed_after(sep@, paths.deep_view()));
    }
}

pub open spec fn pairs_view(v: Seq<(Vec<u8>, Vec<u8>)>) -> Variables {
    v.map_values(|p: (Vec<u8>, Vec<u8>)| (p.0@, p.1@))
}

fn dump_variables(writer: &mut Vec<u8>, variables: &Vec<(Vec<u8>, Vec<u8>)>)
    ensures
        final(writer)@ == old(writer)@ + variables_text(pairs_view(variables@)),
{
    let ghost vs = pairs_view(variables@);
    let ghost w0 = writer@;
    let mut i: usize = 0;
    assert(vs.subrange(0, 0) =~= Seq::<(Seq<u8>, Seq<u8>)>::empty());
    assert(w0 + variables_text(vs.subrange(0, 0)) =~= w0);
    while i < variables.len()
        invariant
            i <= variables.len(),
            vs == pairs_view(variables@),
            writer@ == w0 + variables_text(vs.subrange(0, i as int)),
        decreases variables.len() - i,
    {
        let (variable, value) = &variables[i];
        put_bytes(writer, &['\n' as u8, ' ' as u8, ' ' as u8]);
        put_bytes(writer, variable.as_slice());
        put_bytes(writer, &[' ' as u8, '=' as u8, ' ' as u8]);
        put_bytes(writer, value.as_slice());
        proof {
            let q = vs.subrange(0, i + 1);
            assert(q.drop_last() =~= vs.subrange(0, i as int));
            assert(q.last() == (variable@, value@));
            assert(writer@ =~= w0 + variables_text(q));
        }
        i = i + 1;
    }
    assert(vs.subrange(0, variables.len() as int) =~= vs);
}

/// Writes a build definition: `build`, the outputs, `: ` and the rule, the inputs, the
/// implicit dependencies after ` | `, the order-only ones after ` || `, each variable on
/// a line of its own, and a new line. Paths are escaped, the rule and the variables
/// are not.
pub fn dump_build(
    writer: &mut Vec<u8>,
    outputs: &Vec<Vec<u8>>,
    rule_name: &[u8],
    inputs: &Vec<Vec<u8>>,
    implicit_dependencies: &Vec<Vec<u8>>,
    order_only_dependencies: &Vec<Vec<u8>>,
    variables: &Vec<(Vec<u8>, Vec<u8>)>,
)
    ensures
        final(writer)@ == old(writer)@ + build_text(
            outputs.deep_view(),
            rule_name@,
            inputs.deep_view(),
            implicit_dependencies.deep_view(),
            order_only_dependencies.deep_view(),
            pairs_view(variables@),
        ),
{
    put_bytes(writer, &['b' as u8, 'u' as u8, 'i' as u8, 'l' as u8, 'd' as u8]);
    dump_spaced(writer, outputs, 0);
    put_bytes(writer, &[':' as u8, ' ' as u8]);
    put_bytes(writer, rule_name);
    dump_spaced(writer, inputs, 0);
    let implicit_sep: &[u8] = &[' ' as u8, '|' as u8, ' ' as u8];
    assert(implicit_sep@ =~= seq![' ' as u8, '|' as u8, ' ' as u8]);
    dump_listed_after(writer, implicit_sep, implicit_dependencies);
    let order_only_sep: &[u8] = &[' ' as u8, '|' as u8, '|' as u8, ' ' as u8];
    assert(order_only_sep@ =~= seq![' ' as u8, '|' as u8, '|' as u8, ' ' as u8]);
    dump_listed_after(writer, order_only_sep, order_only_dependencies);
    dump_variables(writer, variables);
    writer.push('\n' as u8);
    assert(outputs.deep_view().subrange(0, outputs.len() as int) =~= outputs.deep_view());
    assert(inputs.deep_view().subrange(0, inputs.len() as int) =~= inputs.deep_view());
    assert(writer@ =~= old(writer)@ + build_text(
        outputs.deep_view(),
        rule_name@,
        inputs.deep_view(),
        implicit_dependencies.deep_view(),
        order_only_dependencies.deep_view(),
        pairs_view(variables@),
    ));
}

} // verus!
