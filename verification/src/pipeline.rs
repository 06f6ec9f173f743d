//! The render pipeline: walks the raw directory entries of the current
//! profile, renders each complete config entry against the freshly loaded
//! color scheme and module table, and reports the incomplete entries as
//! skipped rather than failing the whole pass.
use vstd::prelude::*;

use crate::colors::{scheme_complete, scheme_of, yaml_flat_map_of, ColorScheme, load_color_scheme};
use crate::modules::{modules_of, ModuleTable, build_module_table};
use crate::render::{render, spec_render};
use crate::ColorError;

verus! {

/// The mathematical content of one raw directory entry of the current
/// profile: its name, whether it is a directory, and its template text
/// and target path where those children exist.
pub struct RawEntryModel {
    pub name: Seq<char>,
    pub is_dir: bool,
    pub template: Option<Seq<char>>,
    pub target: Option<Seq<char>>,
}

/// One raw directory entry of the current profile, as found on disk: the
/// entry's name, whether it is a directory, the content of its `template`
/// child if that child is a file, and its `target` child path if that
/// child is present.
pub struct RawEntry {
    pub name: String,
    pub is_dir: bool,
    pub template: Option<String>,
    pub target: Option<String>,
}

impl View for RawEntry {
    type V = RawEntryModel;

    open spec fn view(&self) -> RawEntryModel {
        RawEntryModel {
            name: self.name@,
            is_dir: self.is_dir,
            template: match self.template {
                Some(t) => Some(t@),
                None => None,
            },
            target: match self.target {
                Some(t) => Some(t@),
                None => None,
            },
        }
    }
}

/// The mathematical content of one rendered config.
pub struct RenderedModel {
    pub name: Seq<char>,
    pub target: Seq<char>,
    pub rendered: Seq<char>,
}

/// One rendered config: the entry's name, the target path to overwrite,
/// and the rendered text to write there.
pub struct RenderedConfig {
    pub name: String,
    pub target: String,
    pub rendered: String,
}

impl View for RenderedConfig {
    type V = RenderedModel;

    open spec fn view(&self) -> RenderedModel {
        RenderedModel { name: self.name@, target: self.target@, rendered: self.rendered@ }
    }
}

/// An entry can be rendered when it is a directory holding both a
/// template and a target.
pub open spec fn renderable(e: RawEntryModel) -> bool {
    e.is_dir && e.template is Some && e.target is Some
}

/// The views of a sequence of raw entries.
pub open spec fn raws_view(v: Seq<RawEntry>) -> Seq<RawEntryModel> {
    v.map_values(|e: RawEntry| e@)
}

/// The views of a sequence of rendered configs.
pub open spec fn outs_view(v: Seq<RenderedConfig>) -> Seq<RenderedModel> {
    v.map_values(|o: RenderedConfig| o@)
}

/// The views of a sequence of owned strings.
pub open spec fn names_view(v: Seq<String>) -> Seq<Seq<char>> {
    v.map_values(|s: String| s@)
}

/// The rendered configs a pass over the entries produces, in order: one
/// per renderable entry, holding that entry's name, its target path and
/// its template rendered against the module table and the color scheme.
pub open spec fn pipeline_outputs(
    es: Seq<RawEntryModel>,
    modules: Seq<(Seq<char>, Seq<char>)>,
    colors: Seq<Seq<char>>,
) -> Seq<RenderedModel>
    decreases es.len(),
{
    if es.len() == 0 {
        Seq::<RenderedModel>::empty()
    } else {
        pipeline_outputs(es.drop_last(), modules, colors) + (if renderable(es.last()) {
            seq![
                RenderedModel {
                    name: es.last().name,
                    target: es.last().target->Some_0,
                    rendered: spec_render(es.last().template->Some_0, modules, colors),
                },
            ]
        } else {
            Seq::<RenderedModel>::empty()
        })
    }
}

/// The names of the entries a pass skips, in order: those that are not
/// directories or lack a template or a target.
pub open spec fn pipeline_skipped(es: Seq<RawEntryModel>) -> Seq<Seq<char>>
    decreases es.len(),
{
    if es.len() == 0 {
        Seq::<Seq<char>>::empty()
    } else {
        pipeline_skipped(es.drop_last()) + (if renderable(es.last()) {
            Seq::<Seq<char>>::empty()
        } else {
            seq![es.last().name]
        })
    }
}

/// Runs one render pass over the raw entries of the current profile:
/// every renderable entry is rendered, in order, and every other entry's
/// name is reported as skipped; a broken entry never blocks the rest.
pub fn run_pipeline(
    entries: &Vec<RawEntry>,
    modules: &ModuleTable,
    colors: &ColorScheme,
) -> (r: (Vec<RenderedConfig>, Vec<String>))
    requires
        colors.wf(),
    ensures
        outs_view(r.0@) == pipeline_outputs(raws_view(entries@), modules@, colors@),
        names_view(r.1@) == pipeline_skipped(raws_view(entries@)),
{
    let n = entries.len();
    let mut outs: Vec<RenderedConfig> = Vec::new();
    let mut skipped: Vec<String> = Vec::new();
    let mut i: usize = 0;
    proof {
        assert(raws_view(entries@.take(0)) =~= Seq::<RawEntryModel>::empty());
        assert(outs_view(outs@) =~= pipeline_outputs(
            raws_view(entries@.take(0)),
            modules@,
            colors@,
        ));
        assert(names_view(skipped@) =~= pipeline_skipped(raws_view(entries@.take(0))));
    }
    while i < n
        invariant
            i <= n,
            n == entries@.len(),
            colors.wf(),
            outs_view(outs@) == pipeline_outputs(raws_view(entries@.take(i as int)), modules@, colors@),
            names_view(skipped@) == pipeline_skipped(raws_view(entries@.take(i as int))),
        decreases n - i,
    {
        let ghost done = raws_view(entries@.take(i as int));
        let e = &entries[i];
        let rendered_one: bool;
        match (&e.template, &e.target) {
            (Some(t), Some(g)) => {
                if e.is_dir {
                    let txt = render(t.as_str(), modules, colors);
                    outs.push(
                        RenderedConfig { name: e.name.clone(), target: g.clone(), rendered: txt },
                    );
                    rendered_one = true;
                } else {
                    skipped.push(e.name.clone());
                    rendered_one = false;
                }
            },
            _ => {
                skipped.push(e.name.clone());
                rendered_one = false;
            },
        }
        i = i + 1;
        proof {
            let step = raws_view(entries@.take(i as int));
            assert(step.drop_last() =~= done);
            assert(step.last() == entries@[i - 1]@);
            assert(renderable(entries@[i - 1]@) == rendered_one);
            if rendered_one {
                assert(outs_view(outs@) =~= pipeline_outputs(step, modules@, colors@));
                assert(names_view(skipped@) =~= pipeline_skipped(step));
            } else {
                assert(outs_view(outs@) =~= pipeline_outputs(step, modules@, colors@));
                assert(names_view(skipped@) =~= pipeline_skipped(step));
            }
        }
    }
    proof {
        assert(entries@.take(n as int) =~= entries@);
    }
    (outs, skipped)
}

/// One whole render pass from raw inputs, as the top-level run performs
/// it: loads the color scheme from the color file's text, builds the
/// module table from the module files, and renders the current profile's
/// entries. Fails exactly when the color scheme fails to load; a broken
/// entry is skipped, never fatal.
pub fn load_and_render(
    color_text: &str,
    module_files: &Vec<(String, String)>,
    entries: &Vec<RawEntry>,
) -> (r: Result<(Vec<RenderedConfig>, Vec<String>), ColorError>)
    ensures
        match r {
            Ok((outs, skipped)) => {
                &&& yaml_flat_map_of(color_text@) matches Some(pairs)
                &&& scheme_complete(pairs)
                &&& outs_view(outs@) == pipeline_outputs(
                    raws_view(entries@),
                    modules_of(module_files@),
                    scheme_of(pairs),
                )
                &&& names_view(skipped@) == pipeline_skipped(raws_view(entries@))
            },
            Err(ColorError::MalformedColorData) => yaml_flat_map_of(color_text@) is None,
            Err(ColorError::IncompleteColorScheme) => {
                &&& yaml_flat_map_of(color_text@) matches Some(pairs)
                &&& !scheme_complete(pairs)
            },
            Err(ColorError::MissingColorFile) => false,
        },
{
    let colors = match load_color_scheme(color_text) {
        Ok(c) => c,
        Err(e) => {
            return Err(e);
        },
    };
    let modules = build_module_table(module_files);
    let (outs, skipped) = run_pipeline(entries, &modules, &colors);
    Ok((outs, skipped))
}

} // verus!
