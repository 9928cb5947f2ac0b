//! The run driver's decisions: the parsed run configuration, the fixed
//! output directory layout, the ordered copy plan for flat assets, and the
//! lookup-decode-slice step for one atlas.
//!
//! All file reading and writing stays outside the library; these functions
//! compute names, paths and slices from plain values.

use vstd::prelude::*;
use vstd::string::StringExecFns;

use crate::archive::find_spec;
use crate::archive::full_name;
use crate::archive::Multiplexer;
use crate::errors::Error;
use crate::mapping::AtlasMapping;
use crate::raster::first_out_of_bounds;
use crate::raster::png_decoded;
use crate::raster::slice_atlas;
use crate::raster::slices_ok;
use crate::raster::Rgba;

verus! {

/// The parsed declarative mapping, immutable for the rest of the run.
/// `imgs` and `bin` are declared but unused by current processing; they are
/// preserved for forward compatibility.
pub struct RunConfig {
    pub modid: String,
    pub banner: String,
    pub models: Vec<String>,
    pub gui: Vec<String>,
    pub blocks_copy: Vec<String>,
    pub imgs: Vec<String>,
    pub bin: String,
    pub folders: Vec<(String, Vec<String>)>,
    pub blocks: Vec<(String, AtlasMapping)>,
    pub items: Vec<(String, AtlasMapping)>,
}

/// The root of the output tree, relative to the mapping file's parent
/// directory.
pub open spec fn resources_dir() -> Seq<char> {
    "src/main/resources"@
}

/// The per-mod asset directory under the resources root.
pub open spec fn namespace_dir(modid: Seq<char>) -> Seq<char> {
    resources_dir() + "/assets/"@ + modid
}

/// Where model files land.
pub open spec fn models_dir(modid: Seq<char>) -> Seq<char> {
    namespace_dir(modid) + "/models/block"@
}

/// Where GUI images land.
pub open spec fn guis_dir(modid: Seq<char>) -> Seq<char> {
    namespace_dir(modid) + "/textures/gui"@
}

/// Where block images and block atlas slices land.
pub open spec fn blocks_dir(modid: Seq<char>) -> Seq<char> {
    namespace_dir(modid) + "/textures/block"@
}

/// Where item atlas slices land.
pub open spec fn items_dir(modid: Seq<char>) -> Seq<char> {
    namespace_dir(modid) + "/textures/item"@
}

/// The fixed output directory layout for one mod, as paths relative to the
/// mapping file's parent directory.
pub struct Layout {
    pub resources: String,
    pub models: String,
    pub guis: String,
    pub blocks: String,
    pub items: String,
}

/// Joins a directory and a file name with `/`.
pub fn join_path(dir: &str, name: &str) -> (r: String)
    ensures
        r@ == full_name(dir@, name@),
{
    let r = String::from_str(dir).concat("/").concat(name);
    proof {
        reveal_strlit("/");
        assert(r@ =~= full_name(dir@, name@));
    }
    r
}

/// Computes the output directory layout for `modid`.
pub fn layout(modid: &str) -> (r: Layout)
    ensures
        r.resources@ == resources_dir(),
        r.models@ == models_dir(modid@),
        r.guis@ == guis_dir(modid@),
        r.blocks@ == blocks_dir(modid@),
        r.items@ == items_dir(modid@),
{
    let resources = String::from_str("src/main/resources");
    let namespace = resources.clone().concat("/assets/").concat(modid);
    proof {
        assert(namespace@ =~= namespace_dir(modid@));
    }
    let models = namespace.clone().concat("/models/block");
    let guis = namespace.clone().concat("/textures/gui");
    let blocks = namespace.clone().concat("/textures/block");
    let items = namespace.clone().concat("/textures/item");
    Layout { resources, models, guis, blocks, items }
}

/// The ordered plan of plain file copies: each (logical name, destination
/// path) pair, in processing order — the banner first, then the model
/// files, the GUI images and the generic block images, each into its fixed
/// directory under the layout for `cfg.modid`.
pub fn copy_plan(cfg: &RunConfig) -> (r: Vec<(String, String)>)
    ensures
        r@.len() == 1 + cfg.models@.len() + cfg.gui@.len() + cfg.blocks_copy@.len(),
        r@[0].0@ == cfg.banner@,
        r@[0].1@ == full_name(resources_dir(), cfg.banner@),
        forall|t: int|
            0 <= t < cfg.models@.len() ==> r@[1 + t].0@ == (#[trigger] cfg.models@[t])@ && r@[1
                + t].1@ == full_name(models_dir(cfg.modid@), cfg.models@[t]@),
        forall|t: int|
            0 <= t < cfg.gui@.len() ==> r@[1 + cfg.models@.len() + t].0@ == (
            #[trigger] cfg.gui@[t])@ && r@[1 + cfg.models@.len() + t].1@ == full_name(
                guis_dir(cfg.modid@),
                cfg.gui@[t]@,
            ),
        forall|t: int|
            0 <= t < cfg.blocks_copy@.len() ==> r@[1 + cfg.models@.len() + cfg.gui@.len() + t].0@
                == (#[trigger] cfg.blocks_copy@[t])@ && r@[1 + cfg.models@.len() + cfg.gui@.len()
                + t].1@ == full_name(blocks_dir(cfg.modid@), cfg.blocks_copy@[t]@),
{
    let l = layout(cfg.modid.as_str());
    let mut r: Vec<(String, String)> = Vec::new();
    r.push((cfg.banner.clone(), join_path(l.resources.as_str(), cfg.banner.as_str())));
    let mut t: usize = 0;
    while t < cfg.models.len()
        invariant
            l.models@ == models_dir(cfg.modid@),
            t <= cfg.models@.len(),
            r@.len() == 1 + t,
            r@[0].0@ == cfg.banner@ && r@[0].1@ == full_name(resources_dir(), cfg.banner@),
            forall|u: int|
                0 <= u < t ==> r@[1 + u].0@ == (#[trigger] cfg.models@[u])@ && r@[1 + u].1@
                    == full_name(models_dir(cfg.modid@), cfg.models@[u]@),
        decreases cfg.models@.len() - t,
    {
        let name = &cfg.models[t];
        r.push((name.clone(), join_path(l.models.as_str(), name.as_str())));
        t = t + 1;
    }
    let ghost m = cfg.models@.len() as int;
    let mut t: usize = 0;
    while t < cfg.gui.len()
        invariant
            l.guis@ == guis_dir(cfg.modid@),
            t <= cfg.gui@.len(),
            r@.len() == 1 + m + t,
            r@[0].0@ == cfg.banner@ && r@[0].1@ == full_name(resources_dir(), cfg.banner@),
            m == cfg.models@.len(),
            forall|u: int|
                0 <= u < m ==> r@[1 + u].0@ == (#[trigger] cfg.models@[u])@ && r@[1 + u].1@
                    == full_name(models_dir(cfg.modid@), cfg.models@[u]@),
            forall|u: int|
                0 <= u < t ==> r@[1 + m + u].0@ == (#[trigger] cfg.gui@[u])@ && r@[1 + m + u].1@
                    == full_name(guis_dir(cfg.modid@), cfg.gui@[u]@),
        decreases cfg.gui@.len() - t,
    {
        let name = &cfg.gui[t];
        r.push((name.clone(), join_path(l.guis.as_str(), name.as_str())));
        t = t + 1;
    }
    let ghost g = cfg.gui@.len() as int;
    let mut t: usize = 0;
    while t < cfg.blocks_copy.len()
        invariant
            l.blocks@ == blocks_dir(cfg.modid@),
            t <= cfg.blocks_copy@.len(),
            r@.len() == 1 + m + g + t,
            r@[0].0@ == cfg.banner@ && r@[0].1@ == full_name(resources_dir(), cfg.banner@),
            m == cfg.models@.len(),
            g == cfg.gui@.len(),
            forall|u: int|
                0 <= u < m ==> r@[1 + u].0@ == (#[trigger] cfg.models@[u])@ && r@[1 + u].1@
                    == full_name(models_dir(cfg.modid@), cfg.models@[u]@),
            forall|u: int|
                0 <= u < g ==> r@[1 + m + u].0@ == (#[trigger] cfg.gui@[u])@ && r@[1 + m + u].1@
                    == full_name(guis_dir(cfg.modid@), cfg.gui@[u]@),
            forall|u: int|
                0 <= u < t ==> r@[1 + m + g + u].0@ == (#[trigger] cfg.blocks_copy@[u])@ && r@[1
                    + m + g + u].1@ == full_name(blocks_dir(cfg.modid@), cfg.blocks_copy@[u]@),
        decreases cfg.blocks_copy@.len() - t,
    {
        let name = &cfg.blocks_copy[t];
        r.push((name.clone(), join_path(l.blocks.as_str(), name.as_str())));
        t = t + 1;
    }
    r
}

/// The archive entry name an atlas is looked up by: `<id>.png`.
pub fn atlas_file_name(id: &str) -> (r: String)
    ensures
        r@ == id@ + ".png"@,
{
    String::from_str(id).concat(".png")
}

/// The output path of one atlas slice: `<dir>/<name>.png`.
pub fn output_path(dir: &str, name: &str) -> (r: String)
    ensures
        r@ == full_name(dir@, name@) + ".png"@,
{
    join_path(dir, name).concat(".png")
}

/// Looks the atlas image `<id>.png` up in the multiplexer, decodes it as a
/// PNG and slices every mapped cell, in entry order. Fails with `NotFound`
/// (naming the looked-up file) when no archive holds the atlas, with
/// `Decode` when its bytes are not a valid PNG, and with `OutOfBounds` when
/// a mapped cell exceeds the image bounds.
pub fn fetch_atlas_slices(mux: &mut Multiplexer, id: &str, mapping: &AtlasMapping) -> (r: Result<
    Vec<(String, Rgba)>,
    Error,
>)
    ensures
        final(mux)@ == old(mux)@,
        match r {
            Ok(v) => find_spec(old(mux)@, id@ + ".png"@) matches Some(bytes) && png_decoded(bytes)
                matches Some(d) && slices_ok(v@, d.0 as int, d.1 as int, d.2, mapping.entries@),
            Err(e) => match e {
                Error::NotFound(n) => n@ == id@ + ".png"@ && find_spec(old(mux)@, n@) is None,
                Error::Decode => find_spec(old(mux)@, id@ + ".png"@) matches Some(bytes)
                    && png_decoded(bytes) is None,
                Error::OutOfBounds(p) => find_spec(old(mux)@, id@ + ".png"@) matches Some(bytes)
                    && png_decoded(bytes) matches Some(d) && first_out_of_bounds(
                    p,
                    d.0 as int,
                    d.1 as int,
                    mapping.entries@,
                ),
                Error::ArchiveOpen(_) => false,
            },
        },
{
    let file = atlas_file_name(id);
    match mux.find(file.as_str()) {
        None => Err(Error::NotFound(file)),
        Some(bytes) => slice_atlas(bytes.as_slice(), mapping),
    }
}

} // verus!
