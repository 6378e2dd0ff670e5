//! The build definitions of the workspace's build file: for each project, formatting,
//! lints and tests, and for a project with a binary, its release build and its copy into
//! the binary directory; then the `fmt` and `check` aliases.

use vstd::prelude::*;
use vstd::slice::slice_to_vec;
use vstd::string::*;
use vstd::utf8::encode_utf8;

use crate::ninja_writer::{
    put_build, put_build_rule, put_end, put_implicit_dependencies, put_order_only_dependency,
    put_path, put_paths, put_variable, AfterBuildRuleOrInput, AfterInputOrImplicitDependency,
    NinjaWriter, WriterView,
};
use crate::paths::{join_path, joined};

verus! {

/// A project of the workspace, as read from its manifest and its files: its name, its
/// source files, the names of its dependencies and of its development dependencies, and
/// whether it has a `src/main.rs`.
#[derive(Clone, Debug)]
pub struct Project {
    pub name: String,
    pub sources: Vec<Vec<u8>>,
    pub dependencies: Vec<String>,
    pub dev_dependencies: Vec<String>,
    pub has_main: bool,
}

pub struct ProjectView {
    pub name: Seq<char>,
    pub sources: Seq<Seq<u8>>,
    pub dependencies: Seq<Seq<char>>,
    pub dev_dependencies: Seq<Seq<char>>,
    pub has_main: bool,
}

impl View for Project {
    type V = ProjectView;

    open spec fn view(&self) -> ProjectView {
        ProjectView {
            name: self.name@,
            sources: self.sources.deep_view(),
            dependencies: self.dependencies.deep_view(),
            dev_dependencies: self.dev_dependencies.deep_view(),
            has_main: self.has_main,
        }
    }
}

pub open spec fn utf8(s: Seq<char>) -> Seq<u8> {
    encode_utf8(s)
}

/// The names among `keys` that are projects of the workspace, in order.
pub open spec fn local_projects(keys: Seq<Seq<char>>, names: Seq<Seq<char>>) -> Seq<Seq<char>>
    decreases keys.len(),
{
    if keys.len() == 0 {
        Seq::empty()
    } else {
        let prev = local_projects(keys.drop_last(), names);
        if names.contains(keys.last()) {
            prev.push(keys.last())
        } else {
            prev
        }
    }
}

/// The stamp that formatting leaves for each project.
pub open spec fn fmt_targets(projects: Seq<Seq<char>>) -> Seq<Seq<u8>> {
    projects.map_values(|p: Seq<char>| utf8(p + "/fmt.ninjatarget"@))
}

/// The stamps of the lints and of the tests, two for each project.
pub open spec fn check_targets(projects: Seq<Seq<char>>) -> Seq<Seq<u8>>
    decreases projects.len(),
{
    if projects.len() == 0 {
        Seq::empty()
    } else {
        check_targets(projects.drop_last()) + seq![
            utf8(projects.last() + "/clippy.ninjatarget"@),
            utf8(projects.last() + "/test.ninjatarget"@),
        ]
    }
}

/// `build <output>: <rule> <inputs>` with the variable `project`.
pub open spec fn put_project_build(
    w: WriterView,
    output: Seq<u8>,
    rule: Seq<u8>,
    inputs: Seq<Seq<u8>>,
    project: Seq<char>,
) -> WriterView {
    put_end(
        put_variable(
            put_paths(put_build_rule(put_path(put_build(w), seq![' ' as u8], 1, output), rule), inputs),
            utf8("project"@),
            utf8(project),
        ),
    )
}

/// `build <output>: <rule> <inputs>`.
pub open spec fn put_alias(w: WriterView, output: Seq<u8>, rule: Seq<u8>, inputs: Seq<Seq<u8>>) -> WriterView {
    put_end(put_paths(put_build_rule(put_path(put_build(w), seq![' ' as u8], 1, output), rule), inputs))
}

/// A project is released and deployed when it has a binary and is not the generator
/// of the build file itself.
pub open spec fn deploys(p: ProjectView) -> bool {
    p.has_main && p.name != "ninja_bootstrap"@
}

/// The builds of one project.
pub open spec fn put_project(w: WriterView, p: ProjectView, names: Seq<Seq<char>>, bin: Seq<char>) -> WriterView {
    let normal = local_projects(p.dependencies, names);
    let dev = local_projects(p.dev_dependencies, names);
    let checked = fmt_targets(seq![p.name] + normal + dev);
    let w1 = put_project_build(
        w,
        utf8(p.name + "/fmt.ninjatarget"@),
        utf8("fmt"@),
        seq![utf8("rustfmt.toml"@)] + p.sources,
        p.name,
    );
    let w2 = put_project_build(
        w1,
        utf8(p.name + "/clippy.ninjatarget"@),
        utf8("clippy"@),
        seq![utf8("Cargo.lock"@)] + checked,
        p.name,
    );
    let w3 = put_project_build(
        w2,
        utf8(p.name + "/test.ninjatarget"@),
        utf8("test"@),
        seq![utf8("Cargo.lock"@)] + checked,
        p.name,
    );
    if deploys(p) {
        let release = utf8("target/release/"@ + p.name);
        let shipped = seq![p.name] + normal;
        let w4 = put_project_build(
            w3,
            release,
            utf8("release"@),
            seq![utf8("Cargo.lock"@)] + fmt_targets(shipped),
            p.name,
        );
        put_end(
            put_order_only_dependency(
                put_implicit_dependencies(
                    put_path(
                        put_build_rule(
                            put_path(put_build(w4), seq![' ' as u8], 1, utf8(joined(bin, p.name))),
                            utf8("copy"@),
                        ),
                        seq![' ' as u8],
                        1,
                        release,
                    ),
                    check_targets(shipped),
                ),
                utf8(bin),
            ),
        )
    } else {
        w3
    }
}

/// The builds of the first `n` projects, in order.
pub open spec fn put_projects(
    w: WriterView,
    ps: Seq<ProjectView>,
    names: Seq<Seq<char>>,
    bin: Seq<char>,
    n: nat,
) -> WriterView
    decreases n,
{
    if n == 0 {
        w
    } else {
        put_project(put_projects(w, ps, names, bin, (n - 1) as nat), ps[n - 1], names, bin)
    }
}

/// The whole set of build definitions.
pub open spec fn put_builds(w: WriterView, ps: Seq<ProjectView>, bin: Seq<char>) -> WriterView {
    let names = ps.map_values(|p: ProjectView| p.name);
    let w0 = put_end(put_build_rule(put_path(put_build(w), seq![' ' as u8], 1, utf8(bin)), utf8("create_directory"@)));
    let w1 = put_projects(w0, ps, names, bin, ps.len());
    let w2 = put_alias(w1, utf8("fmt"@), utf8("phony"@), fmt_targets(names));
    put_alias(w2, utf8("check"@), utf8("phony"@), check_targets(names))
}

/// Writing paths one after the other is writing them all.
proof fn lemma_put_paths_concat(w: WriterView, a: Seq<Seq<u8>>, b: Seq<Seq<u8>>)
    ensures
        put_paths(put_paths(w, a), b) == put_paths(w, a + b),
    decreases b.len(),
{
    if b.len() > 0 {
        lemma_put_paths_concat(w, a, b.drop_last());
        assert((a + b).drop_last() =~= a + b.drop_last());
        assert((a + b).last() == b.last());
    } else {
        assert(a + b =~= a);
    }
}

fn bytes_of(s: &str) -> (r: Vec<u8>)
    ensures
        r@ == utf8(s@),
{
    slice_to_vec(s.as_bytes())
}

/// `<project><suffix>` as bytes.
fn stamp(project: &str, suffix: &str) -> (r: Vec<u8>)
    ensures
        r@ == utf8(project@ + suffix@),
{
    let s = String::from_str(project).concat(suffix);
    bytes_of(s.as_str())
}

/// Whether `name` is among `names`.
fn is_among(name: &String, names: &Vec<String>) -> (r: bool)
    ensures
        r == names.deep_view().contains(name@),
{
    let mut i: usize = 0;
    while i < names.len()
        invariant
            i <= names.len(),
            forall|j: int| 0 <= j < i ==> names.deep_view()[j] != name@,
        decreases names.len() - i,
    {
        if names[i] == *name {
            assert(names.deep_view()[i as int] == name@);
            return true;
        }
        i = i + 1;
    }
    false
}

/// The names among `keys` that are projects of the workspace, in order.
pub fn get_local_projects_from(keys: &Vec<String>, local_projects_names: &Vec<String>) -> (r: Vec<String>)
    ensures
        r.deep_view() == local_projects(keys.deep_view(), local_projects_names.deep_view()),
{
    let ghost ks = keys.deep_view();
    let ghost ns = local_projects_names.deep_view();
    let mut r: Vec<String> = Vec::new();
    let mut i: usize = 0;
    assert(ks.subrange(0, 0) =~= Seq::<Seq<char>>::empty());
    assert(r.deep_view() =~= Seq::<Seq<char>>::empty());
    while i < keys.len()
        invariant
            i <= keys.len(),
            ks == keys.deep_view(),
            ns == local_projects_names.deep_view(),
            r.deep_view() == local_projects(ks.subrange(0, i as int), ns),
        decreases keys.len() - i,
    {
        let ghost q = ks.subrange(0, i + 1);
        assert(q.drop_last() =~= ks.subrange(0, i as int));
        assert(q.last() == keys@[i as int]@);
        if is_among(&keys[i], local_projects_names) {
            let ghost before = r.deep_view();
            r.push(String::from_str(keys[i].as_str()));
            assert(r.deep_view() =~= before.push(keys@[i as int]@));
        }
        i = i + 1;
    }
    assert(ks.subrange(0, keys.len() as int) =~= ks);
    r
}

/// The formatting stamps of `projects`.
fn get_fmt_targets(projects: &Vec<String>) -> (r: Vec<Vec<u8>>)
    ensures
        r.deep_view() == fmt_targets(projects.deep_view()),
{
    let mut r: Vec<Vec<u8>> = Vec::new();
    let mut i: usize = 0;
    while i < projects.len()
        invariant
            i <= projects.len(),
            r.deep_view() =~= fmt_targets(projects.deep_view().subrange(0, i as int)),
        decreases projects.len() - i,
    {
        let ghost before = r.deep_view();
        r.push(stamp(projects[i].as_str(), "/fmt.ninjatarget"));
        proof {
            assert(r.deep_view() =~~= before.push(utf8(projects@[i as int]@ + "/fmt.ninjatarget"@)));
            assert(projects.deep_view().subrange(0, i + 1) =~= projects.deep_view().subrange(0, i as int).push(
                projects@[i as int]@,
            ));
        }
        i = i + 1;
    }
    assert(projects.deep_view().subrange(0, projects.len() as int) =~= projects.deep_view());
    r
}

/// The lint and test stamps of `projects`.
fn get_check_targets(projects: &Vec<String>) -> (r: Vec<Vec<u8>>)
    ensures
        r.deep_view() == check_targets(projects.deep_view()),
{
    let ghost ps = projects.deep_view();
    let mut r: Vec<Vec<u8>> = Vec::new();
    let mut i: usize = 0;
    assert(r.deep_view() =~= check_targets(ps.subrange(0, 0)));
    while i < projects.len()
        invariant
            i <= projects.len(),
            ps == projects.deep_view(),
            r.deep_view() == check_targets(ps.subrange(0, i as int)),
        decreases projects.len() - i,
    {
        let ghost before = r.deep_view();
        r.push(stamp(projects[i].as_str(), "/clippy.ninjatarget"));
        r.push(stamp(projects[i].as_str(), "/test.ninjatarget"));
        proof {
            let q = ps.subrange(0, i + 1);
            assert(q.drop_last() =~= ps.subrange(0, i as int));
            assert(q.last() == projects@[i as int]@);
            let p = projects@[i as int]@;
            assert(r.deep_view() =~~= before + seq![
                utf8(p + "/clippy.ninjatarget"@),
                utf8(p + "/test.ninjatarget"@),
            ]);
        }
        i = i + 1;
    }
    assert(ps.subrange(0, projects.len() as int) =~= ps);
    r
}

/// `build <output>: <rule> <first> <rest...>` with the variable `project`.
fn write_project_build(
    w: NinjaWriter,
    output: &[u8],
    rule: &[u8],
    first: &[u8],
    rest: &Vec<Vec<u8>>,
    project: &str,
) -> (r: NinjaWriter)
    requires
        w@.line == 0,
    ensures
        r@ == put_project_build(w@, output@, rule@, seq![first@] + rest.deep_view(), project@),
        r@.line == 0,
{
    let step = w.build().output(output).rule(rule);
    let ghost before = step@;
    let step = step.input(first).inputs(rest);
    proof {
        lemma_put_paths_concat(before, seq![first@], rest.deep_view());
        assert(seq![first@].drop_last() =~= Seq::<Seq<u8>>::empty());
        assert(put_paths(before, Seq::<Seq<u8>>::empty()) == before);
        assert(seq![first@].last() == first@);
    }
    let name = bytes_of("project");
    let value = bytes_of(project);
    step.variable_and_value(name.as_slice(), value.as_slice()).end()
}

/// `build <output>: phony <inputs>`.
fn write_alias(w: NinjaWriter, output: &[u8], inputs: &Vec<Vec<u8>>) -> (r: NinjaWriter)
    requires
        w@.line == 0,
    ensures
        r@ == put_alias(w@, output@, utf8("phony"@), inputs.deep_view()),
        r@.line == 0,
{
    let phony = bytes_of("phony");
    w.build().output(output).rule(phony.as_slice()).inputs(inputs).end()
}

/// Whether `project` is released and copied into the binary directory.
pub fn has_a_binary_to_deploy(project: &Project) -> (r: bool)
    ensures
        r == deploys(project@),
{
    let generator = String::from_str("ninja_bootstrap");
    project.has_main && !(project.name == generator)
}

/// The builds of one project.
fn write_project(w: NinjaWriter, p: &Project, names: &Vec<String>, bin_path: &str) -> (r: NinjaWriter)
    requires
        w@.line == 0,
    ensures
        r@ == put_project(w@, p@, names.deep_view(), bin_path@),
        r@.line == 0,
{
    let normal = get_local_projects_from(&p.dependencies, names);
    let dev = get_local_projects_from(&p.dev_dependencies, names);
    let name = p.name.as_str();
    let mut checked_projects: Vec<String> = Vec::new();
    checked_projects.push(String::from_str(name));
    let mut i: usize = 0;
    while i < normal.len()
        invariant
            i <= normal.len(),
            checked_projects.deep_view() =~= seq![name@] + normal.deep_view().subrange(0, i as int),
        decreases normal.len() - i,
    {
        let ghost before = checked_projects.deep_view();
        checked_projects.push(String::from_str(normal[i].as_str()));
        assert(checked_projects.deep_view() =~= before.push(normal@[i as int]@));
        assert(normal.deep_view().subrange(0, i + 1) =~= normal.deep_view().subrange(0, i as int).push(
            normal@[i as int]@,
        ));
        i = i + 1;
    }
    let ghost shipped = checked_projects.deep_view();
    assert(shipped =~= seq![name@] + normal.deep_view());
    let shipped_projects = checked_projects.clone();
    let mut k: usize = 0;
    while k < dev.len()
        invariant
            k <= dev.len(),
            checked_projects.deep_view() =~= shipped + dev.deep_view().subrange(0, k as int),
        decreases dev.len() - k,
    {
        let ghost before = checked_projects.deep_view();
        checked_projects.push(String::from_str(dev[k].as_str()));
        assert(checked_projects.deep_view() =~= before.push(dev@[k as int]@));
        assert(dev.deep_view().subrange(0, k + 1) =~= dev.deep_view().subrange(0, k as int).push(
            dev@[k as int]@,
        ));
        k = k + 1;
    }
    assert(checked_projects.deep_view() =~= shipped + dev.deep_view());
    let checked = get_fmt_targets(&checked_projects);
    let cargo_lock = bytes_of("Cargo.lock");
    let w = write_project_build(
        w,
        stamp(name, "/fmt.ninjatarget").as_slice(),
        bytes_of("fmt").as_slice(),
        bytes_of("rustfmt.toml").as_slice(),
        &p.sources,
        name,
    );
    let w = write_project_build(
        w,
        stamp(name, "/clippy.ninjatarget").as_slice(),
        bytes_of("clippy").as_slice(),
        cargo_lock.as_slice(),
        &checked,
        name,
    );
    let w = write_project_build(
        w,
        stamp(name, "/test.ninjatarget").as_slice(),
        bytes_of("test").as_slice(),
        cargo_lock.as_slice(),
        &checked,
        name,
    );
    if !has_a_binary_to_deploy(p) {
        return w;
    }
    assert(shipped_projects.deep_view() == shipped);
    let release = stamp("target/release/", name);
    let w = write_project_build(
        w,
        release.as_slice(),
        bytes_of("release").as_slice(),
        cargo_lock.as_slice(),
        &get_fmt_targets(&shipped_projects),
        name,
    );
    let destination = bytes_of(join_path(bin_path, name).as_str());
    let step = w.build().output(destination.as_slice()).rule(bytes_of("copy").as_slice()).input(
        release.as_slice(),
    );
    let checks = get_check_targets(&shipped_projects);
    match step.implicit_dependencies(&checks) {
        AfterInputOrImplicitDependency::AfterImplicitDependency(step) => {
            step.order_only_dependency(bytes_of(bin_path).as_slice()).end()
        },
        AfterInputOrImplicitDependency::AfterInput(step) => {
            step.order_only_dependency(bytes_of(bin_path).as_slice()).end()
        },
    }
}

/// Writes the build definitions of the workspace made of `projects`, whose binaries are
/// copied into `bin_path`.
pub fn write_builds(w: NinjaWriter, projects: &Vec<Project>, bin_path: &str) -> (r: NinjaWriter)
    requires
        w@.line == 0,
    ensures
        r@ == put_builds(w@, projects@.map_values(|p: Project| p@), bin_path@),
        r@.line == 0,
{
    let ghost ps = projects@.map_values(|p: Project| p@);
    let mut names: Vec<String> = Vec::new();
    let mut i: usize = 0;
    while i < projects.len()
        invariant
            i <= projects.len(),
            ps == projects@.map_values(|p: Project| p@),
            names.deep_view() =~= ps.map_values(|p: ProjectView| p.name).subrange(0, i as int),
        decreases projects.len() - i,
    {
        let ghost before = names.deep_view();
        names.push(String::from_str(projects[i].name.as_str()));
        assert(names.deep_view() =~= before.push(projects@[i as int].name@));
        i = i + 1;
    }
    let ghost all = ps.map_values(|p: ProjectView| p.name);
    assert(names.deep_view() =~= all);
    let w = w.build().output(bytes_of(bin_path).as_slice()).rule(
        bytes_of("create_directory").as_slice(),
    ).end();
    let ghost w0 = w@;
    let mut w = w;
    let mut j: usize = 0;
    while j < projects.len()
        invariant
            j <= projects.len(),
            ps == projects@.map_values(|p: Project| p@),
            names.deep_view() == all,
            all == ps.map_values(|p: ProjectView| p.name),
            w@ == put_projects(w0, ps, all, bin_path@, j as nat),
            w@.line == 0,
        decreases projects.len() - j,
    {
        assert(ps[j as int] == projects@[j as int]@);
        w = write_project(w, &projects[j], &names, bin_path);
        j = j + 1;
    }
    let w = write_alias(w, bytes_of("fmt").as_slice(), &get_fmt_targets(&names));
    write_alias(w, bytes_of("check").as_slice(), &get_check_targets(&names))
}

} // verus!
