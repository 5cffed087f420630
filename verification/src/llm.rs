use vstd::prelude::*;

use crate::index_query::IndexQuery;
use crate::path_safety::join_path;
use crate::rule_parser::{ParseConfidence, ParsedAssistantQuery};
use crate::text::{chars_of, string_of};

verus! {

/// Which parser produced a query.
#[derive(Debug, Clone, Copy, PartialEq, Eq, Structural)]
pub enum ParseSource {
    Llm,
    Regex,
}

/// A query read by the on-device language model.
pub struct LlmParsedQuery {
    pub index_query: IndexQuery,
    pub source: ParseSource,
}

/// Merges an optional model result into the rule-based one: the model's
/// query replaces the rule-based query unless that one was read with high
/// confidence; the summary and confidence stay those of the rule-based parse.
pub fn merge_with_regex(llm: Option<LlmParsedQuery>, regex: ParsedAssistantQuery) -> (r:
    ParsedAssistantQuery)
    ensures
        r.summary@ == regex.summary@,
        r.confidence == regex.confidence,
        match llm {
            Some(l) => if regex.confidence == ParseConfidence::High {
                r.query@ == regex.query@
            } else {
                r.query@ == l.index_query@
            },
            None => r.query@ == regex.query@,
        },
{
    match llm {
        None => regex,
        Some(l) => {
            if regex.confidence == ParseConfidence::High {
                regex
            } else {
                ParsedAssistantQuery {
                    query: l.index_query,
                    summary: regex.summary,
                    confidence: regex.confidence,
                }
            }
        },
    }
}

/// The file name the parser model is looked for first.
pub const PARSER_MODEL_PRIMARY: &'static str = "paker-parser.gguf";

/// The file name the embedding model is looked for first.
pub const EMBED_MODEL_PRIMARY: &'static str = "paker-embed.gguf";

/// The file name the parser model is looked for first, as text.
pub open spec fn parser_primary() -> Seq<char> {
    "paker-parser.gguf"@
}

/// The file name the embedding model is looked for first, as text.
pub open spec fn embed_primary() -> Seq<char> {
    "paker-embed.gguf"@
}

/// The file names a parser model may have, in order of preference.
pub open spec fn parser_aliases() -> Seq<Seq<char>> {
    seq!["paker-parser.gguf"@, "gemma-3-270m-q4.gguf"@, "llama-3.2-1b-q4.gguf"@]
}

/// The file names an embedding model may have, in order of preference.
pub open spec fn embed_aliases() -> Seq<Seq<char>> {
    seq!["paker-embed.gguf"@, "embeddinggemma-300m-q8.gguf"@]
}

/// The models folder under a data folder.
pub fn models_dir_in(base: &str) -> (r: String)
    ensures
        r@ == join_path(base@, "models"@),
{
    string_of(&crate::path_safety::join_dir(&chars_of(base), &chars_of("models")))
}

/// The paths a model is looked for at, in order.
pub open spec fn candidates(base: Seq<char>, names: Seq<Seq<char>>) -> Seq<Seq<char>> {
    Seq::new(names.len(), |i: int| join_path(join_path(base, "models"@), names[i]))
}

/// The first candidate that is a file, given which are.
pub open spec fn first_present(paths: Seq<Seq<char>>, present: Seq<bool>) -> Option<Seq<char>> {
    if exists|i: int| 0 <= i < paths.len() && i < present.len() && present[i] {
        let i = choose|i: int|
            0 <= i < paths.len() && i < present.len() && present[i] && forall|j: int|
                0 <= j < i ==> !present[j];
        Some(paths[i])
    } else {
        None
    }
}

fn candidate_paths(base: &str, names: &[&str]) -> (r: Vec<String>)
    ensures
        crate::index_query::str_views(r@) == Seq::new(
            names.len() as nat,
            |i: int| join_path(join_path(base@, "models"@), names@[i]@),
        ),
{
    let dir = chars_of(models_dir_in(base).as_str());
    let mut r: Vec<String> = Vec::new();
    let mut i: usize = 0;
    while i < names.len()
        invariant
            i <= names.len(),
            dir@ == join_path(base@, "models"@),
            crate::index_query::str_views(r@) =~= Seq::new(
                i as nat,
                |j: int| join_path(join_path(base@, "models"@), names@[j]@),
            ),
        decreases names.len() - i,
    {
        let ghost before = crate::index_query::str_views(r@);
        r.push(string_of(&crate::path_safety::join_dir(&dir, &chars_of(names[i]))));
        assert(crate::index_query::str_views(r@) =~= before.push(
            join_path(join_path(base@, "models"@), names@[i as int]@),
        ));
        i += 1;
    }
    r
}

/// The paths at which the parser model is looked for, in order.
pub fn parser_model_candidates(base: &str) -> (r: Vec<String>)
    ensures
        crate::index_query::str_views(r@) == candidates(base@, parser_aliases()),
{
    let names = ["paker-parser.gguf", "gemma-3-270m-q4.gguf", "llama-3.2-1b-q4.gguf"];
    let r = candidate_paths(base, &names);
    assert(crate::index_query::str_views(r@) =~= candidates(base@, parser_aliases()));
    r
}

/// The paths at which the embedding model is looked for, in order.
pub fn embed_model_candidates(base: &str) -> (r: Vec<String>)
    ensures
        crate::index_query::str_views(r@) == candidates(base@, embed_aliases()),
{
    let names = ["paker-embed.gguf", "embeddinggemma-300m-q8.gguf"];
    let r = candidate_paths(base, &names);
    assert(crate::index_query::str_views(r@) =~= candidates(base@, embed_aliases()));
    r
}

fn first_existing(paths: &Vec<String>, present: &Vec<bool>) -> (r: Option<String>)
    ensures
        crate::rule_parser::str_opt_view(r) == first_present(
            crate::index_query::str_views(paths@),
            present@,
        ),
{
    let ghost ps = crate::index_query::str_views(paths@);
    let mut i: usize = 0;
    while i < paths.len() && i < present.len()
        invariant
            i <= paths.len(),
            ps == crate::index_query::str_views(paths@),
            forall|j: int| 0 <= j < i ==> !present@[j],
        decreases paths.len() - i,
    {
        if present[i] {
            proof {
                let c = choose|c: int|
                    0 <= c < ps.len() && c < present@.len() && present@[c] && forall|j: int|
                        0 <= j < c ==> !present@[j];
                assert(0 <= i < ps.len() && i < present@.len() && present@[i as int] && forall|
                    j: int,
                | 0 <= j < i ==> !present@[j]);
                if c < i {
                    assert(!present@[c]);
                } else if c > i {
                    assert(!present@[i as int]);
                }
            }
            return Some(string_of(&chars_of(paths[i].as_str())));
        }
        i += 1;
    }
    None
}

/// The parser model's path: the first candidate (see
/// [`parser_model_candidates`]) that `present` marks as an existing file.
pub fn resolve_parser_model_path(base: &str, present: &Vec<bool>) -> (r: Option<String>)
    ensures
        crate::rule_parser::str_opt_view(r) == first_present(
            candidates(base@, parser_aliases()),
            present@,
        ),
{
    first_existing(&parser_model_candidates(base), present)
}

/// The embedding model's path: the first candidate (see
/// [`embed_model_candidates`]) that `present` marks as an existing file.
pub fn resolve_embed_model_path(base: &str, present: &Vec<bool>) -> (r: Option<String>)
    ensures
        crate::rule_parser::str_opt_view(r) == first_present(
            candidates(base@, embed_aliases()),
            present@,
        ),
{
    first_existing(&embed_model_candidates(base), present)
}

/// What the assistant panel shows about the on-device models.
pub struct AssistantModelStatus {
    pub llm_feature_enabled: bool,
    pub parser_loaded: bool,
    pub models_dir: String,
    pub parser_path: Option<String>,
    pub parser_present: bool,
    pub parser_recommended_filename: String,
    pub embed_path: Option<String>,
    pub embed_present: bool,
    pub embed_recommended_filename: String,
    pub hint: String,
}

/// The hint for the model state.
pub open spec fn model_hint(enabled: bool, parser_present: bool, parser_loaded: bool) -> Seq<char> {
    if !enabled {
        "Rebuild Paker with --features llm to enable on-device parsing fallback."@
    } else if !parser_present {
        "Drop a GGUF parser model as paker-parser.gguf in the models folder (e.g. Gemma 3 270M or Llama 3.2 1B Q4)."@
    } else if parser_loaded {
        "Parser model loaded — LLM fallback is active for low-confidence queries."@
    } else {
        "Parser model file found but not loaded — restart Paker after adding the model."@
    }
}

/// The model status for a data folder, given where the models were found
/// and whether this build has the model feature.
pub fn get_model_status(
    data_dir: &str,
    parser_loaded: bool,
    parser_path: Option<String>,
    embed_path: Option<String>,
    llm_feature_enabled: bool,
) -> (r: AssistantModelStatus)
    ensures
        r.llm_feature_enabled == llm_feature_enabled,
        r.parser_loaded == parser_loaded,
        r.models_dir@ == join_path(data_dir@, "models"@),
        crate::rule_parser::str_opt_view(r.parser_path) == crate::rule_parser::str_opt_view(
            parser_path,
        ),
        r.parser_present == parser_path is Some,
        r.parser_recommended_filename@ == parser_primary(),
        crate::rule_parser::str_opt_view(r.embed_path) == crate::rule_parser::str_opt_view(
            embed_path,
        ),
        r.embed_present == embed_path is Some,
        r.embed_recommended_filename@ == embed_primary(),
        r.hint@ == model_hint(llm_feature_enabled, parser_path is Some, parser_loaded),
{
    let parser_present = parser_path.is_some();
    let embed_present = embed_path.is_some();
    let hint = if !llm_feature_enabled {
        chars_of("Rebuild Paker with --features llm to enable on-device parsing fallback.")
    } else if !parser_present {
        chars_of(
            "Drop a GGUF parser model as paker-parser.gguf in the models folder (e.g. Gemma 3 270M or Llama 3.2 1B Q4).",
        )
    } else if parser_loaded {
        chars_of("Parser model loaded — LLM fallback is active for low-confidence queries.")
    } else {
        chars_of("Parser model file found but not loaded — restart Paker after adding the model.")
    };
    AssistantModelStatus {
        llm_feature_enabled,
        parser_loaded,
        models_dir: models_dir_in(data_dir),
        parser_path,
        parser_present,
        parser_recommended_filename: string_of(&chars_of("paker-parser.gguf")),
        embed_path,
        embed_present,
        embed_recommended_filename: string_of(&chars_of("paker-embed.gguf")),
        hint: string_of(&hint),
    }
}

/// GBNF grammar that constrains the model's output to a JSON object whose
/// fields map one to one onto [`IndexQuery`]'s.
pub const INDEX_QUERY_GBNF: &'static str = r#"
root    ::= obj | "{" ws "}"

obj     ::= "{" ws field-list ws "}"
field-list ::= field (ws "," ws field)*
             | ""

field ::= key-pattern-field
        | prefix-field
        | min-size-field
        | max-size-field
        | modified-after-field
        | modified-before-field
        | storage-class-field

key-pattern-field    ::= "\"keyPattern\""    ws ":" ws (string | null)
prefix-field         ::= "\"prefix\""        ws ":" ws (string | null)
min-size-field       ::= "\"minSize\""       ws ":" ws (uint64 | null)
max-size-field       ::= "\"maxSize\""       ws ":" ws (uint64 | null)
modified-after-field ::= "\"modifiedAfter\"" ws ":" ws (iso8601-string | null)
modified-before-field ::= "\"modifiedBefore\"" ws ":" ws (iso8601-string | null)
storage-class-field  ::= "\"storageClass\""  ws ":" ws (sc-array | null)

sc-array  ::= "[" ws "]"
            | "[" ws sc-value (ws "," ws sc-value)* ws "]"
sc-value  ::= "\"STANDARD\""
            | "\"STANDARD_IA\""
            | "\"ONEZONE_IA\""
            | "\"INTELLIGENT_TIERING\""
            | "\"GLACIER\""
            | "\"GLACIER_IR\""
            | "\"DEEP_ARCHIVE\""

string       ::= "\"" char* "\""
char         ::= [^"\\] | "\\" escape
escape       ::= ["\\bfnrt] | "u" [0-9a-fA-F][0-9a-fA-F][0-9a-fA-F][0-9a-fA-F]
uint64       ::= [1-9][0-9]* | "0"
iso8601-string ::= "\"" [0-9][0-9][0-9][0-9] "-" [0-9][0-9] "-" [0-9][0-9]
                   ("T" [0-9][0-9] ":" [0-9][0-9] ":" [0-9][0-9] "Z")? "\""
null         ::= "null"
ws           ::= [ \t\n\r]*
"#;

/// Objects and bytes under one prefix.
pub struct PrefixStat {
    pub prefix: String,
    pub object_count: u64,
    pub total_bytes: u64,
}

/// A summary of a bucket's index.
pub struct BucketReport {
    pub total_objects: u64,
    pub total_bytes: u64,
    pub top_prefixes_by_bytes: Vec<PrefixStat>,
    pub glacier_object_count: u64,
    pub glacier_bytes: u64,
    pub small_file_count: u64,
    pub small_file_threshold_bytes: u64,
}

} // verus!
