//! The directory pipeline: given the source tree as values — its
//! subdirectories and its files, each with its place, name, extension and
//! content — it plans the whole output tree for one run. Every subdirectory
//! of the source tree is mirrored under the output root; every file bearing
//! the markup extension is converted, wrapped in the template, and planned as
//! an output file of the same base name with the rendered-document extension;
//! files of any other extension are ignored. A run is stateless: the plan is
//! a function of the sources and the template alone.

use vstd::prelude::*;
use vstd::string::StringExecFns;
use crate::convert::{convert, spec_convert};
use crate::template::{render, spec_render};

verus! {

/// The markup extension of a source file that is converted.
pub open spec fn md_ext() -> Seq<char> {
    "md"@
}

/// The extension given to a rendered output document, dot included.
pub open spec fn html_ext() -> Seq<char> {
    ".html"@
}

/// One source file: the path of its directory relative to the source root,
/// split into components, its base name, its extension, and its content.
#[derive(Debug, PartialEq, Eq)]
pub struct SourceFile {
    pub dir: Vec<String>,
    pub stem: String,
    pub ext: String,
    pub content: String,
}

/// The source tree of one run: its subdirectories, relative to the source
/// root and split into components, and its files.
#[derive(Debug, PartialEq, Eq)]
pub struct SourceTree {
    pub dirs: Vec<Vec<String>>,
    pub files: Vec<SourceFile>,
}

/// One planned output file: the mirrored directory, the full file name, and
/// the rendered content to write.
#[derive(Debug, PartialEq, Eq)]
pub struct OutputFile {
    pub dir: Vec<String>,
    pub name: String,
    pub content: String,
}

/// The planned output tree of one run: the directories to create and the
/// files to write.
#[derive(Debug, PartialEq, Eq)]
pub struct OutputTree {
    pub dirs: Vec<Vec<String>>,
    pub files: Vec<OutputFile>,
}

/// The mathematical image of one source file.
pub ghost struct SourceFileV {
    pub dir: Seq<Seq<char>>,
    pub stem: Seq<char>,
    pub ext: Seq<char>,
    pub content: Seq<char>,
}

/// The mathematical image of one output file.
pub ghost struct OutputFileV {
    pub dir: Seq<Seq<char>>,
    pub name: Seq<char>,
    pub content: Seq<char>,
}

impl View for SourceFile {
    type V = SourceFileV;

    open spec fn view(&self) -> SourceFileV {
        SourceFileV {
            dir: self.dir.deep_view(),
            stem: self.stem@,
            ext: self.ext@,
            content: self.content@,
        }
    }
}

impl DeepView for SourceFile {
    type V = SourceFileV;

    open spec fn deep_view(&self) -> SourceFileV {
        self.view()
    }
}

impl View for OutputFile {
    type V = OutputFileV;

    open spec fn view(&self) -> OutputFileV {
        OutputFileV {
            dir: self.dir.deep_view(),
            name: self.name@,
            content: self.content@,
        }
    }
}

impl DeepView for OutputFile {
    type V = OutputFileV;

    open spec fn deep_view(&self) -> OutputFileV {
        self.view()
    }
}

/// The output planned for one converted source file: the same directory, the
/// base name with the rendered-document extension, and the converted content
/// substituted into the template.
pub open spec fn spec_output_of(f: SourceFileV, tpl: Seq<char>) -> OutputFileV {
    OutputFileV {
        dir: f.dir,
        name: f.stem + html_ext(),
        content: spec_render(tpl, spec_convert(f.content)),
    }
}

/// The outputs planned for the files from position `i` on: files bearing the
/// markup extension are converted and rendered, in order; all others are
/// ignored.
pub open spec fn spec_outputs(files: Seq<SourceFileV>, tpl: Seq<char>, i: int) -> Seq<OutputFileV>
    decreases files.len() - i,
{
    if 0 <= i < files.len() {
        if files[i].ext == md_ext() {
            seq![spec_output_of(files[i], tpl)] + spec_outputs(files, tpl, i + 1)
        } else {
            spec_outputs(files, tpl, i + 1)
        }
    } else {
        Seq::empty()
    }
}

fn clone_path(p: &Vec<String>) -> (r: Vec<String>)
    ensures
        r.deep_view() == p.deep_view(),
{
    let mut r: Vec<String> = Vec::new();
    let mut i: usize = 0;
    let n = p.len();
    while i < n
        invariant
            n == p@.len(),
            i <= n,
            r@.len() == i,
            forall|k: int| 0 <= k < i ==> r@[k]@ == p@[k]@,
        decreases n - i,
    {
        let s = p[i].clone();
        r.push(s);
        i += 1;
    }
    proof {
        assert forall|k: int| 0 <= k < p@.len() implies r.deep_view()[k] == p.deep_view()[k] by {
            assert(r@[k]@ == p@[k]@);
        }
        assert(r.deep_view() =~= p.deep_view());
    }
    r
}

fn clone_dirs(d: &Vec<Vec<String>>) -> (r: Vec<Vec<String>>)
    ensures
        r.deep_view() == d.deep_view(),
{
    let mut r: Vec<Vec<String>> = Vec::new();
    let mut i: usize = 0;
    let n = d.len();
    while i < n
        invariant
            n == d@.len(),
            i <= n,
            r@.len() == i,
            forall|k: int| 0 <= k < i ==> r@[k].deep_view() == d@[k].deep_view(),
        decreases n - i,
    {
        let path = clone_path(&d[i]);
        r.push(path);
        i += 1;
    }
    proof {
        assert forall|k: int| 0 <= k < d@.len() implies r.deep_view()[k] == d.deep_view()[k] by {
            assert(r@[k].deep_view() == d@[k].deep_view());
        }
        assert(r.deep_view() =~= d.deep_view());
    }
    r
}

/// Plans one full run: mirrors every source subdirectory into the output
/// tree, and plans one rendered output file for every source file bearing
/// the markup extension, ignoring all others.
pub fn plan(tree: &SourceTree, template: &str) -> (r: OutputTree)
    ensures
        r.dirs.deep_view() == tree.dirs.deep_view(),
        r.files.deep_view() == spec_outputs(tree.files.deep_view(), template@, 0),
{
    let dirs = clone_dirs(&tree.dirs);
    let md = String::from_str("md");
    let mut files: Vec<OutputFile> = Vec::new();
    let mut i: usize = 0;
    let n = tree.files.len();
    let ghost fv = tree.files.deep_view();
    assert(files.deep_view() =~= Seq::<OutputFileV>::empty());
    while i < n
        invariant
            n == tree.files@.len(),
            fv == tree.files.deep_view(),
            fv.len() == n,
            i <= n,
            md@ == "md"@,
            spec_outputs(fv, template@, 0) == files.deep_view() + spec_outputs(
                fv,
                template@,
                i as int,
            ),
        decreases n - i,
    {
        let f = &tree.files[i];
        if f.ext == md {
            let body = convert(f.content.as_str());
            let content = render(template, body.as_str());
            let name = f.stem.clone().concat(".html");
            let out = OutputFile { dir: clone_path(&f.dir), name: name, content: content };
            proof {
                assert(out.deep_view() == spec_output_of(fv[i as int], template@));
            }
            let ghost before = files.deep_view();
            files.push(out);
            proof {
                assert(files.deep_view() =~= before + seq![
                    spec_output_of(fv[i as int], template@),
                ]);
                assert(spec_outputs(fv, template@, i as int) == seq![
                    spec_output_of(fv[i as int], template@),
                ] + spec_outputs(fv, template@, i as int + 1));
                assert(spec_outputs(fv, template@, 0) =~= files.deep_view() + spec_outputs(
                    fv,
                    template@,
                    i as int + 1,
                ));
            }
        } else {
            proof {
                assert(spec_outputs(fv, template@, i as int) == spec_outputs(
                    fv,
                    template@,
                    i as int + 1,
                ));
            }
        }
        i += 1;
    }
    proof {
        assert(spec_outputs(fv, template@, n as int) =~= Seq::<OutputFileV>::empty());
        assert(files.deep_view() + spec_outputs(fv, template@, n as int) =~= files.deep_view());
    }
    OutputTree { dirs: dirs, files: files }
}

/// Two runs over the same sources with the same template plan identical
/// output trees: the plan depends on nothing but its inputs, so a rerun
/// with no source changes is byte-identical.
pub proof fn lemma_rerun_identical(
    files1: Seq<SourceFileV>,
    tpl1: Seq<char>,
    files2: Seq<SourceFileV>,
    tpl2: Seq<char>,
)
    requires
        files1 == files2,
        tpl1 == tpl2,
    ensures
        spec_outputs(files1, tpl1, 0) == spec_outputs(files2, tpl2, 0),
{
}

proof fn lemma_outputs_contain_from(files: Seq<SourceFileV>, tpl: Seq<char>, j: int, i: int)
    requires
        0 <= j <= i < files.len(),
        files[i].ext == md_ext(),
    ensures
        spec_outputs(files, tpl, j).contains(spec_output_of(files[i], tpl)),
    decreases i - j,
{
    if j == i {
        assert(spec_outputs(files, tpl, j)[0] == spec_output_of(files[i], tpl));
    } else {
        lemma_outputs_contain_from(files, tpl, j + 1, i);
        let x = spec_output_of(files[i], tpl);
        let rest = spec_outputs(files, tpl, j + 1);
        let k = choose|k: int| 0 <= k < rest.len() && rest[k] == x;
        if files[j].ext == md_ext() {
            assert(spec_outputs(files, tpl, j)[k + 1] == x);
        } else {
            assert(spec_outputs(files, tpl, j)[k] == x);
        }
    }
}

/// A run regenerates every file bearing the markup extension, not only a
/// changed one: whatever prompted the run, the plan holds the rendered
/// output of every such source file.
pub proof fn lemma_rebuilds_every_file(files: Seq<SourceFileV>, tpl: Seq<char>, i: int)
    requires
        0 <= i < files.len(),
        files[i].ext == md_ext(),
    ensures
        spec_outputs(files, tpl, 0).contains(spec_output_of(files[i], tpl)),
{
    lemma_outputs_contain_from(files, tpl, 0, i);
}

} // verus!
