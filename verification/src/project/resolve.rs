//! Building the project configuration from what `config.toml` holds: the values are checked
//! and converted, the paths are joined onto the base directory and looked up, and the two are
//! combined. Value problems come first, then path problems; when there is none, the
//! configuration holds the values as written, the converted font values, and the resolved
//! paths.

use vstd::prelude::*;
use crate::failures::Failures;
use crate::length::Length;
use crate::project::config::{
    font_values_read, joined_all, non_sei_sources, opt_joined, opt_str, opt_text, resolve_output_dir_path,
    resolve_paths, texts, warning_path, ConfigValidationError, ConfigWarning, FontValues, OutputConfig,
    PreImageConfig, RawPaths,
};
use crate::project::font::FONT_TYPE_COUNT;
use crate::project::font_map::FontMap;
use crate::project::path_resolver::spec_join;
use crate::project::source::ProjectSource;
use crate::project::validate::{all_failures, lists, validate_and_convert, PreConfig, PreDocumentConfig, PrePdfConfig};

verus! {

/// The configuration of one font kind: its resolved path and its checked values.
#[derive(Debug)]
pub struct FontConfig {
    /// The font file, joined onto the base directory.
    pub font_path: String,
    /// The index, tags, language, direction and features.
    pub values: FontValues,
}

/// The configuration of a project, checked and resolved.
#[derive(Debug)]
pub struct ProjectConfig {
    /// `[document]`, as written.
    pub document: PreDocumentConfig,
    /// `[output]`, with the output directory resolved.
    pub output: OutputConfig,
    /// `[pdf]`, as written.
    pub pdf: PrePdfConfig,
    /// `[image]`, as written.
    pub image: PreImageConfig,
    /// One configuration per font kind, in declaration order of the kinds.
    pub font_configs: Vec<FontConfig>,
    /// The source files, resolved, in order.
    pub sources: Vec<String>,
    /// The style file, resolved, if given.
    pub style_path: Option<String>,
    /// The references file, resolved, if given.
    pub references_path: Option<String>,
}

/// A copy of each string, in order.
fn copy_strings(v: &Vec<String>) -> (r: Vec<String>)
    ensures
        texts(r@) == texts(v@),
{
    let mut r: Vec<String> = Vec::new();
    let mut i: usize = 0;
    while i < v.len()
        invariant
            0 <= i <= v@.len(),
            texts(r@) == texts(v@.take(i as int)),
        decreases v@.len() - i,
    {
        let s = v[i].clone();
        proof {
            assert(texts(r@.push(s)) =~= texts(r@).push(s@));
            assert(texts(v@.take(i + 1)) =~= texts(v@.take(i as int)).push(v@[i as int]@));
        }
        r.push(s);
        i = i + 1;
    }
    proof {
        assert(v@.take(i as int) =~= v@);
    }
    r
}

/// A copy of the optional string.
fn copy_opt(o: &Option<String>) -> (r: Option<String>)
    ensures
        opt_text(r) == opt_text(*o),
{
    match o {
        Some(s) => Some(s.clone()),
        None => None,
    }
}

/// The paths that the configuration `raw` names: its sources, its style and references files,
/// and the `font_path` of each font kind.
pub fn raw_paths_of(raw: &PreConfig) -> (p: RawPaths)
    requires
        raw.font_configs.wf(),
    ensures
        texts(p.sources@) == texts(raw.sources@),
        opt_text(p.style_path) == opt_text(raw.style_path),
        opt_text(p.references_path) == opt_text(raw.references_path),
        p.font_paths.wf(),
        forall|i: int| 0 <= i < FONT_TYPE_COUNT ==> (#[trigger] p.font_paths.spec_values()[i])@
            == raw.font_configs.spec_values()[i].font_path@,
{
    let configs = raw.font_configs.values();
    let mut font_paths: Vec<String> = Vec::new();
    let mut i: usize = 0;
    while i < configs.len()
        invariant
            0 <= i <= configs@.len(),
            configs@ == raw.font_configs.spec_values(),
            font_paths@.len() == i,
            forall|j: int| 0 <= j < i ==> (#[trigger] font_paths@[j])@ == configs@[j].font_path@,
        decreases configs@.len() - i,
    {
        font_paths.push(configs[i].font_path.clone());
        i = i + 1;
    }
    RawPaths {
        sources: copy_strings(&raw.sources),
        style_path: copy_opt(&raw.style_path),
        references_path: copy_opt(&raw.references_path),
        font_paths: FontMap::from_complete(font_paths),
    }
}

/// The configuration `c` and warnings `w` are what resolving `raw` onto `base` gives when
/// nothing is refused: the sections as written, the output directory and every path joined
/// onto `base`, the values of each kind read from its section, and a warning for each source
/// without the extension `sei`.
pub open spec fn resolved_as<R: Fn(Length) -> String>(
    raw: PreConfig,
    base: Seq<char>,
    c: ProjectConfig,
    w: Seq<ConfigWarning>,
) -> bool {
    &&& c.document == raw.document
    &&& c.pdf == raw.pdf
    &&& c.image == raw.image
    &&& c.output.name@ == raw.output.name@
    &&& c.output.output_dir@ == match raw.output.output_dir {
        Some(d) => spec_join(base, d@),
        None => base,
    }
    &&& texts(c.sources@) == joined_all(base, texts(raw.sources@))
    &&& opt_text(c.style_path) == opt_joined(base, raw.style_path)
    &&& opt_text(c.references_path) == opt_joined(base, raw.references_path)
    &&& c.font_configs@.len() == FONT_TYPE_COUNT
    &&& forall|i: int| 0 <= i < FONT_TYPE_COUNT ==> {
        &&& (#[trigger] c.font_configs@[i]).font_path@ == spec_join(base, raw.font_configs.spec_values()[i].font_path@)
        &&& font_values_read(c.font_configs@[i].values, raw.font_configs.spec_values()[i])
    }
    &&& w.map_values(|x: ConfigWarning| warning_path(x)) == non_sei_sources(texts(raw.sources@))
}

/// Builds the configuration of a project from `raw`, resolving its paths onto `base_dir`
/// through `source`. Every value problem (see [`validate_and_convert`]) is reported first, in
/// order, then every path problem; with none, the configuration (see [`resolved_as`]) and the
/// warnings. Whether a path exists is the source's answer; whatever it is, the value problems
/// alone already refuse the configuration, and an accepted one is exactly [`resolved_as`].
pub fn resolve<S: ProjectSource, R: Fn(Length) -> String>(
    raw: PreConfig,
    source: &S,
    base_dir: &str,
    render_length: &R,
) -> (r: Result<(ProjectConfig, Vec<ConfigWarning>), Failures<ConfigValidationError>>)
    requires
        raw.font_configs.wf(),
        forall|x: Length| render_length.requires((x,)),
    ensures
        all_failures(raw).len() > 0 ==> (r matches Err(f) && all_failures(raw).len() <= f.spec_items().len()
            && lists(f.spec_items().take(all_failures(raw).len() as int), all_failures(raw), *render_length)),
        r matches Ok((c, w)) ==> all_failures(raw).len() == 0 && resolved_as::<R>(raw, base_dir@, c, w@),
        r matches Err(f) ==> f.wf(),
{
    let ghost raw0 = raw;
    let paths = raw_paths_of(&raw);
    let validation = validate_and_convert(&raw, render_length);
    let (resolved, path_errors, warnings) = resolve_paths(&paths, source, base_dir);
    let mut path_errors = path_errors;
    match validation {
        Err(value_errors) => {
            let ghost ve = value_errors@;
            let mut errors = value_errors;
            errors.append(&mut path_errors);
            proof {
                assert(errors@.take(ve.len() as int) =~= ve);
                assert(lists(errors@.take(ve.len() as int), all_failures(raw0), *render_length));
            }
            let f = Failures::from_vec(errors).unwrap();
            proof {
                assert(lists(f.spec_items().take(ve.len() as int), all_failures(raw), *render_length));
            }
            Err(f)
        },
        Ok(values) => {
            if path_errors.len() > 0 {
                return Err(Failures::from_vec(path_errors).unwrap());
            }
            let output_dir = resolve_output_dir_path(base_dir, opt_str(&raw.output.output_dir));
            let PreConfig { document, output, pdf, image, font_configs: _, sources: _, style_path: _, references_path: _ } = raw;
            let ghost rfp = resolved.font_paths@;
            proof {
                assert(texts(rfp) == joined_all(base_dir@, texts(paths.font_paths.spec_values())));
                assert(texts(rfp).len() == rfp.len());
                assert(paths.font_paths.spec_values().len() == FONT_TYPE_COUNT);
            }
            let font_configs = pair_font_configs(values, resolved.font_paths);
            let config = ProjectConfig {
                document,
                output: OutputConfig { name: output.name, output_dir },
                pdf,
                image,
                font_configs,
                sources: resolved.sources,
                style_path: resolved.style_path,
                references_path: resolved.references_path,
            };
            proof {
                assert forall|i: int| 0 <= i < FONT_TYPE_COUNT implies {
                    &&& (#[trigger] config.font_configs@[i]).font_path@ == spec_join(base_dir@, raw0.font_configs.spec_values()[i].font_path@)
                    &&& font_values_read(config.font_configs@[i].values, raw0.font_configs.spec_values()[i])
                } by {
                    assert(texts(rfp)[i] == rfp[i]@);
                    assert(texts(paths.font_paths.spec_values())[i] == paths.font_paths.spec_values()[i]@);
                }
            }
            Ok((config, warnings))
        },
    }
}

/// The configuration of each kind: the values and the resolved path at the same position.
fn pair_font_configs(values: Vec<FontValues>, font_paths: Vec<String>) -> (r: Vec<FontConfig>)
    requires
        values@.len() == font_paths@.len(),
    ensures
        r@.len() == values@.len(),
        forall|i: int| 0 <= i < r@.len() ==> (#[trigger] r@[i]).values == values@[i] && r@[i].font_path == font_paths@[i],
{
    let ghost vs = values@;
    let ghost ps = font_paths@;
    let mut values = values;
    let mut font_paths = font_paths;
    let mut rev: Vec<FontConfig> = Vec::new();
    while values.len() > 0
        invariant
            values@.len() == font_paths@.len(),
            values@.len() + rev@.len() == vs.len(),
            vs.len() == ps.len(),
            values@ == vs.take(values@.len() as int),
            font_paths@ == ps.take(font_paths@.len() as int),
            forall|k: int| 0 <= k < rev@.len() ==> (#[trigger] rev@[k]).values == vs[vs.len() - 1 - k]
                && rev@[k].font_path == ps[ps.len() - 1 - k],
        decreases values@.len(),
    {
        let v = values.pop().unwrap();
        let p = font_paths.pop().unwrap();
        proof {
            assert(values@ =~= vs.take(values@.len() as int));
            assert(font_paths@ =~= ps.take(font_paths@.len() as int));
        }
        rev.push(FontConfig { font_path: p, values: v });
    }
    let mut out: Vec<FontConfig> = Vec::new();
    while rev.len() > 0
        invariant
            out@.len() + rev@.len() == vs.len(),
            vs.len() == ps.len(),
            forall|k: int| 0 <= k < rev@.len() ==> (#[trigger] rev@[k]).values == vs[vs.len() - 1 - k]
                && rev@[k].font_path == ps[ps.len() - 1 - k],
            forall|i: int| 0 <= i < out@.len() ==> (#[trigger] out@[i]).values == vs[i] && out@[i].font_path == ps[i],
        decreases rev@.len(),
    {
        proof {
            let k = rev@.len() - 1;
            assert(rev@[k].values == vs[vs.len() - 1 - k]);
        }
        let x = rev.pop().unwrap();
        out.push(x);
    }
    out
}

} // verus!
