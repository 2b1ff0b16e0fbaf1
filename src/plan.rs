//! Classification of source files and the plan that maps each of them to
//! its output file and to its link target under the home directory.

use vstd::prelude::*;
use crate::error::DeployError;
use crate::paths::{
    copy_path, extension, extension_of, file_stem, join, lemma_stem_dot_extension, starts_with, stem_of,
    strip_root,
};

verus! {

/// The extension that marks a template file.
pub const TEMPLATE_EXTENSION: &'static str = "hbs";

/// Where a deployment reads, writes and links, and which files it renders.
pub struct Layout {
    /// The root of the source tree.
    pub input: Vec<String>,
    /// The root of the output tree.
    pub output: Vec<String>,
    /// The directory that receives the links.
    pub home: Vec<String>,
    /// The extension that marks a template.
    pub marker: String,
}

/// What to do with one source file.
pub struct Step {
    /// The source file.
    pub source: Vec<String>,
    /// The file that the step materializes.
    pub output: Vec<String>,
    /// The link that will point at `output`.
    pub link: Vec<String>,
    /// Whether the source is rendered (else it is copied).
    pub render: bool,
}

/// The steps of a deployment, one per source file, in the order given.
pub struct Plan {
    pub steps: Vec<Step>,
    /// Whether any step renders, so that the values table is needed.
    pub needs_values: bool,
}

/// Whether the last component of `path` has exactly the extension `marker`.
pub open spec fn is_template_path(path: Seq<Seq<char>>, marker: Seq<char>) -> bool {
    path.len() > 0 && extension_of(path.last()) == Some(marker)
}

/// Whether `file` lies strictly below `root`.
pub open spec fn below_root(file: Seq<Seq<char>>, root: Seq<Seq<char>>) -> bool {
    starts_with(file, root) && file.len() > root.len()
}

/// The path of `file` relative to the source root.
pub open spec fn relative_of(file: Seq<Seq<char>>, layout: Layout) -> Seq<Seq<char>> {
    file.skip(layout.input.len() as int)
}

/// The relative path that a source file takes in the output tree and under
/// the home directory: the marker extension is dropped from a template.
pub open spec fn output_relative(rel: Seq<Seq<char>>, marker: Seq<char>) -> Seq<Seq<char>> {
    if is_template_path(rel, marker) {
        rel.drop_last().push(stem_of(rel.last()))
    } else {
        rel
    }
}

/// The output file of a source file.
pub open spec fn output_of(file: Seq<Seq<char>>, layout: Layout) -> Seq<Seq<char>> {
    layout.output.deep_view() + output_relative(relative_of(file, layout), layout.marker@)
}

/// The link target of a source file.
pub open spec fn link_of(file: Seq<Seq<char>>, layout: Layout) -> Seq<Seq<char>> {
    layout.home.deep_view() + output_relative(relative_of(file, layout), layout.marker@)
}

/// `step` is the step planned for `file`.
pub open spec fn step_for(step: Step, file: Seq<Seq<char>>, layout: Layout) -> bool {
    &&& step.source.deep_view() == file
    &&& step.render == is_template_path(file, layout.marker@)
    &&& step.output.deep_view() == output_of(file, layout)
    &&& step.link.deep_view() == link_of(file, layout)
}

/// Whether every file lies strictly below the source root.
pub open spec fn all_below_root(files: Seq<Seq<Seq<char>>>, layout: Layout) -> bool {
    forall|i: int| 0 <= i < files.len() ==> below_root(#[trigger] files[i], layout.input.deep_view())
}

/// Whether any file is a template.
pub open spec fn any_template(files: Seq<Seq<Seq<char>>>, marker: Seq<char>) -> bool {
    exists|i: int| 0 <= i < files.len() && is_template_path(#[trigger] files[i], marker)
}

/// Whether `path` names a template: its last component's extension equals
/// `marker`, letter case included. A path without that extension is plain.
pub fn is_template(path: &Vec<String>, marker: &str) -> (r: bool)
    ensures
        r == is_template_path(path.deep_view(), marker@),
{
    if path.len() == 0 {
        return false;
    }
    let name = path[path.len() - 1].as_str();
    match extension(name) {
        Some(e) => {
            let m = marker.to_owned();
            e == m
        },
        None => false,
    }
}

/// The relative path in the output tree of the source file at `rel`.
fn output_relative_path(rel: &Vec<String>, marker: &str) -> (r: Vec<String>)
    requires
        rel.len() > 0,
    ensures
        r.deep_view() == output_relative(rel.deep_view(), marker@),
{
    let mut r: Vec<String> = Vec::new();
    let render = is_template(rel, marker);
    let last = rel.len() - 1;
    let mut i: usize = 0;
    while i < last
        invariant
            last == rel.len() - 1,
            i <= last,
            r@ == rel@.subrange(0, i as int),
        decreases last - i,
    {
        r.push(rel[i].clone());
        assert(r@ =~= rel@.subrange(0, i + 1));
        i = i + 1;
    }
    if render {
        r.push(file_stem(rel[last].as_str()));
        assert(r.deep_view() =~= rel.deep_view().drop_last().push(stem_of(rel.deep_view().last())));
    } else {
        r.push(rel[last].clone());
        assert(r@ =~= rel@);
        assert(r.deep_view() =~= rel.deep_view());
    }
    r
}

/// The step for one source file, or `OutsideRoot` where the file does not
/// lie strictly below the source root.
pub fn plan_step(file: &Vec<String>, layout: &Layout) -> (r: Result<Step, DeployError>)
    ensures
        r is Ok <==> below_root(file.deep_view(), layout.input.deep_view()),
        r matches Err(e) ==> e == DeployError::OutsideRoot,
        r matches Ok(step) ==> step_for(step, file.deep_view(), *layout),
{
    match strip_root(file, &layout.input) {
        Some(rel) => {
            if rel.len() == 0 {
                return Err(DeployError::OutsideRoot);
            }
            let marker = layout.marker.as_str();
            let render = is_template(file, marker);
            let out_rel = output_relative_path(&rel, marker);
            let output = join(&layout.output, &out_rel);
            let link = join(&layout.home, &out_rel);
            let source = copy_path(file);
            proof {
                assert(rel.deep_view().last() == file.deep_view().last());
            }
            Ok(Step { source, output, link, render })
        },
        None => Err(DeployError::OutsideRoot),
    }
}

/// The plan for the scanned files, in their order. Fails with `OutsideRoot`
/// exactly where some file does not lie strictly below the source root.
pub fn plan_run(files: &Vec<Vec<String>>, layout: &Layout) -> (r: Result<Plan, DeployError>)
    ensures
        r is Ok <==> all_below_root(files.deep_view(), *layout),
        r matches Err(e) ==> e == DeployError::OutsideRoot,
        r matches Ok(plan) ==> {
            &&& plan.steps.len() == files.len()
            &&& forall|i: int| 0 <= i < files.len() ==>
                step_for(#[trigger] plan.steps@[i], files.deep_view()[i], *layout)
            &&& plan.needs_values == any_template(files.deep_view(), layout.marker@)
        },
{
    let mut steps: Vec<Step> = Vec::new();
    let mut needs_values = false;
    let mut i: usize = 0;
    while i < files.len()
        invariant
            i <= files.len(),
            steps.len() == i,
            forall|k: int| 0 <= k < i ==> below_root(#[trigger] files.deep_view()[k], layout.input.deep_view()),
            forall|k: int| 0 <= k < i ==> step_for(#[trigger] steps@[k], files.deep_view()[k], *layout),
            needs_values == any_template(files.deep_view().subrange(0, i as int), layout.marker@),
        decreases files.len() - i,
    {
        match plan_step(&files[i], layout) {
            Ok(step) => {
                let ghost before = files.deep_view().subrange(0, i as int);
                let ghost after = files.deep_view().subrange(0, i + 1);
                proof {
                    assert forall|k: int| 0 <= k < before.len() implies before[k] == after[k] by {}
                    assert(after[i as int] == files.deep_view()[i as int]);
                }
                needs_values = needs_values || step.render;
                steps.push(step);
            },
            Err(e) => {
                assert(!below_root(files.deep_view()[i as int], layout.input.deep_view()));
                return Err(e);
            },
        }
        i = i + 1;
    }
    assert(files.deep_view().subrange(0, files.len() as int) == files.deep_view());
    Ok(Plan { steps, needs_values })
}

/// A rendered file keeps the source's relative place in the output tree,
/// and its name is the source's name with exactly the marker extension and
/// its dot taken off; every other component and dot is kept.
pub proof fn lemma_render_strips_marker(step: Step, file: Seq<Seq<char>>, layout: Layout)
    requires
        step_for(step, file, layout),
        below_root(file, layout.input.deep_view()),
        step.render,
    ensures
        step.output.deep_view().len() == layout.output.len() + relative_of(file, layout).len(),
        step.output.deep_view().drop_last() == layout.output.deep_view() + relative_of(file, layout).drop_last(),
        step.output.deep_view().last() + seq!['.'] + layout.marker@ == file.last(),
        step.link.deep_view() == layout.home.deep_view() + step.output.deep_view().skip(layout.output.len() as int),
{
    let rel = relative_of(file, layout);
    assert(rel.last() == file.last());
    lemma_stem_dot_extension(file.last());
    assert(output_of(file, layout).drop_last() =~= layout.output.deep_view() + rel.drop_last());
    assert(output_of(file, layout).skip(layout.output.len() as int) =~= output_relative(rel, layout.marker@));
}

/// A copied file lands in the output tree at the source's own relative
/// path, and its link under the home directory at that same path.
pub proof fn lemma_copy_mirrors_source(step: Step, file: Seq<Seq<char>>, layout: Layout)
    requires
        step_for(step, file, layout),
        below_root(file, layout.input.deep_view()),
        !step.render,
    ensures
        step.source.deep_view() == layout.input.deep_view() + file.skip(layout.input.len() as int),
        step.output.deep_view() == layout.output.deep_view() + file.skip(layout.input.len() as int),
        step.link.deep_view() == layout.home.deep_view() + file.skip(layout.input.len() as int),
{
    assert(relative_of(file, layout).last() == file.last());
    assert(file =~= file.subrange(0, layout.input.len() as int) + file.skip(layout.input.len() as int));
}

} // verus!
