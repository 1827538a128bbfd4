//! Configuration resolution: merges explicit invocation parameters, the
//! persisted configuration and built-in defaults into the final
//! operating parameters.  Precedence, highest first: explicit parameter,
//! persisted entry under the upper-cased parameter name, built-in
//! default.  Explicit string values have their spaces replaced by
//! underscores, a transcription-safety normalization.

use crate::config::{lookup_cfg, ConfigMap};
use crate::text::{underscore_str, underscored, upper_ascii, upper_str};
use vstd::prelude::*;

verus! {

/// The built-in word count, used when no explicit count is given.
pub const DEFAULT_WORD_COUNT: u32 = 3;

/// The value a string parameter resolves to: the normalized explicit
/// value if one was given, else the persisted value under the
/// upper-cased name, else nothing.
pub open spec fn resolved_value(
    explicit: Option<Seq<char>>,
    cfg: Seq<(Seq<char>, Seq<char>)>,
    key: Seq<char>,
) -> Option<Seq<char>> {
    match explicit {
        Some(v) => Some(underscored(v)),
        None => lookup_cfg(cfg, upper_ascii(key)),
    }
}

/// The persisted entries, or none at all where the source is missing: a
/// missing source is not an error, merely the absence of overrides.
pub open spec fn cfg_view(cfg: Option<ConfigMap>) -> Seq<(Seq<char>, Seq<char>)> {
    match cfg {
        Some(m) => m@,
        None => Seq::empty(),
    }
}

/// Law: a missing persisted source is no failure and carries no
/// overrides — with no source, every parameter resolves to its
/// normalized explicit value alone, or to nothing where none was given,
/// leaving the built-in default its turn.
pub proof fn lemma_missing_source_no_overrides(explicit: Option<Seq<char>>, key: Seq<char>)
    ensures
        resolved_value(explicit, cfg_view(None), key) == match explicit {
            Some(v) => Some(underscored(v)),
            None => None::<Seq<char>>,
        },
{
}

/// Resolves one string parameter by the precedence above.
pub fn resolve_value(explicit: &Option<String>, cfg: &Option<ConfigMap>, key: &str) -> (r: Option<
    String,
>)
    requires
        cfg matches Some(m) ==> m.wf(),
    ensures
        r matches Some(v) ==> resolved_value(explicit.deep_view(), cfg_view(*cfg), key@)
            == Some(v@),
        r is None ==> resolved_value(explicit.deep_view(), cfg_view(*cfg), key@) is None,
{
    match explicit {
        Some(v) => Some(underscore_str(v.as_str())),
        None => {
            match cfg {
                Some(m) => {
                    let upper = upper_str(key);
                    m.get(upper.as_str())
                },
                None => None,
            }
        },
    }
}

/// The explicit invocation parameters, exactly as given on the
/// invocation surface; an absent option means the parameter was not
/// supplied.
pub struct Params {
    pub word_count: Option<u32>,
    pub prefix: Option<String>,
    pub suffix: Option<String>,
    pub shared_path: Option<String>,
    pub interactive: bool,
    pub emit_visual_code: bool,
}

/// The final operating parameters of one invocation, immutable once
/// built.
pub struct ResolvedConfig {
    pub word_count: u32,
    pub prefix: Option<String>,
    pub suffix: Option<String>,
    pub corpus_path: String,
    pub interactive: bool,
    pub emit_visual_code: bool,
}

impl ResolvedConfig {
    /// Builds the resolved configuration.  `cfg` is the parsed persisted
    /// source, or `None` where that source is missing; `default_path` is
    /// the built-in corpus location.  Each field follows the precedence:
    /// explicit value first, then the persisted entry under the
    /// upper-cased field name, then the default — `None` for the
    /// decorations, which have no default.
    pub fn resolve(params: &Params, cfg: &Option<ConfigMap>, default_path: &str) -> (r:
        ResolvedConfig)
        requires
            cfg matches Some(m) ==> m.wf(),
        ensures
            r.word_count == match params.word_count {
                Some(n) => n,
                None => DEFAULT_WORD_COUNT,
            },
            r.prefix.deep_view() == resolved_value(
                params.prefix.deep_view(),
                cfg_view(*cfg),
                "prefix"@,
            ),
            r.suffix.deep_view() == resolved_value(
                params.suffix.deep_view(),
                cfg_view(*cfg),
                "suffix"@,
            ),
            r.corpus_path@ == match resolved_value(
                params.shared_path.deep_view(),
                cfg_view(*cfg),
                "shared_path"@,
            ) {
                Some(p) => p,
                None => default_path@,
            },
            r.interactive == params.interactive,
            r.emit_visual_code == params.emit_visual_code,
    {
        let word_count = match params.word_count {
            Some(n) => n,
            None => DEFAULT_WORD_COUNT,
        };
        let prefix = resolve_value(&params.prefix, cfg, "prefix");
        let suffix = resolve_value(&params.suffix, cfg, "suffix");
        let corpus_path = match resolve_value(&params.shared_path, cfg, "shared_path") {
            Some(p) => p,
            None => default_path.to_owned(),
        };
        ResolvedConfig {
            word_count,
            prefix,
            suffix,
            corpus_path,
            interactive: params.interactive,
            emit_visual_code: params.emit_visual_code,
        }
    }
}

} // verus!
