//! Chooses the pattern that applies to a record and decides whether the
//! record is kept.
use vstd::prelude::*;
use vstd::string::*;
use crate::config::{Configuration, FilterConfig, FilterRule};
use crate::pattern::{Pattern, regex_compiles, regex_finds};
use crate::pod_name::{extract_pod_name, normalized_pod_name};

verus! {

pub type Key = (Seq<char>, Seq<char>, Seq<char>);

pub open spec fn wildcard() -> Seq<char> {
    seq!['*']
}

/// The eight keys tried for a record, most specific first: containers
/// outrank pods, and pods outrank namespaces.
pub open spec fn precedence(c: Seq<char>, n: Seq<char>, p: Seq<char>) -> Seq<Key> {
    let w = wildcard();
    seq![(c, n, p), (c, n, w), (c, w, p), (c, w, w), (w, n, p), (w, w, p), (w, n, w), (w, w, w)]
}

/// The first of `keys` that the configuration holds a pattern for, with it.
pub open spec fn first_hit(config: FilterConfig, keys: Seq<Key>) -> Option<(Key, Seq<char>)>
    decreases keys.len(),
{
    if keys.len() == 0 {
        None
    } else {
        match config.entry(keys[0]) {
            Some(pattern) => Some((keys[0], pattern)),
            None => first_hit(config, keys.drop_first()),
        }
    }
}

/// The rule that applies to (c, n, p): its key and its pattern.
pub open spec fn resolve(config: FilterConfig, c: Seq<char>, n: Seq<char>, p: Seq<char>) -> Option<(Key, Seq<char>)> {
    first_hit(config, precedence(c, n, p))
}

/// A log record as the filter reads it; identity fields may be absent.
pub struct LogRecord {
    pub container_name: Option<String>,
    pub namespace_name: Option<String>,
    pub pod_name: Option<String>,
    pub log: Option<String>,
}

/// Why a record could not be decided.
pub enum FilterError {
    /// The record has no `log` field.
    MissingLog,
    /// The rule stored under this key holds a pattern that does not compile.
    InvalidPattern { container: String, namespace: String, pod: String, pattern: String },
}

pub open spec fn text_or_empty(field: Option<String>) -> Seq<char> {
    match field {
        Some(s) => s@,
        None => Seq::empty(),
    }
}

/// The rule that applies to `record`, found with its pod's workload name.
pub open spec fn record_rule(config: FilterConfig, record: LogRecord) -> Option<(Key, Seq<char>)> {
    resolve(
        config,
        text_or_empty(record.container_name),
        text_or_empty(record.namespace_name),
        normalized_pod_name(text_or_empty(record.pod_name)),
    )
}

/// The verdict on `record`: kept when no rule applies, else kept when the
/// rule's pattern matches the log body. None when the record has no log or
/// the pattern does not compile.
pub open spec fn verdict(config: FilterConfig, record: LogRecord) -> Option<bool> {
    match record.log {
        None => None,
        Some(log) => match record_rule(config, record) {
            None => Some(true),
            Some(hit) => if regex_compiles(hit.1) {
                Some(regex_finds(hit.1, log@))
            } else {
                None
            },
        },
    }
}

fn field_text(field: &Option<String>) -> (r: &str)
    ensures
        r@ == text_or_empty(*field),
{
    match field {
        Some(s) => s.as_str(),
        None => {
            proof {
                reveal_strlit("");
            }
            ""
        },
    }
}

/// The rule that applies to (container, namespace, pod) in `config`.
pub fn resolve_rule<'a>(config: &'a FilterConfig, container: &str, namespace: &str, pod: &str) -> (r: Option<&'a FilterRule>)
    ensures
        match r {
            Some(rule) => resolve(*config, container@, namespace@, pod@) == Some((rule.key(), rule.pattern@)),
            None => resolve(*config, container@, namespace@, pod@) is None,
        },
{
    proof {
        reveal_strlit("*");
    }
    let w: &str = "*";
    let mut levels: Vec<(&str, &str, &str)> = Vec::new();
    levels.push((container, namespace, pod));
    levels.push((container, namespace, w));
    levels.push((container, w, pod));
    levels.push((container, w, w));
    levels.push((w, namespace, pod));
    levels.push((w, w, pod));
    levels.push((w, namespace, w));
    levels.push((w, w, w));
    let ghost keys = precedence(container@, namespace@, pod@);
    assert(levels@.len() == 8);
    assert forall|j: int| 0 <= j < 8 implies (#[trigger] levels@[j]).0@ == keys[j].0 && levels@[j].1@ == keys[j].1
        && levels@[j].2@ == keys[j].2 by {}
    assert(keys.subrange(0, 8) =~= keys);
    let mut i: usize = 0;
    while i < 8
        invariant
            0 <= i <= 8,
            levels@.len() == 8,
            keys == precedence(container@, namespace@, pod@),
            forall|j: int| 0 <= j < 8 ==> (#[trigger] levels@[j]).0@ == keys[j].0 && levels@[j].1@ == keys[j].1
                && levels@[j].2@ == keys[j].2,
            first_hit(*config, keys.subrange(i as int, 8)) == first_hit(*config, keys),
        decreases 8 - i,
    {
        let (c, n, p) = levels[i];
        assert(keys.subrange(i as int, 8)[0] == keys[i as int]);
        assert(keys.subrange(i as int, 8).drop_first() =~= keys.subrange(i + 1, 8));
        match config.lookup(c, n, p) {
            Some(rule) => {
                return Some(rule);
            },
            None => {},
        }
        i = i + 1;
    }
    None
}

/// The pattern that applies to (container, namespace, pod), if any.
pub fn get_filter<C: Configuration>(container_name: &str, namespace_name: &str, pod_name: &str, config_source: &C) -> (r: Option<String>)
    ensures
        match r {
            Some(pattern) => resolve(config_source.config_spec(), container_name@, namespace_name@, pod_name@) matches Some(hit)
                && hit.1 == pattern@,
            None => resolve(config_source.config_spec(), container_name@, namespace_name@, pod_name@) is None,
        },
{
    let config = config_source.get_config();
    match resolve_rule(config, container_name, namespace_name, pod_name) {
        Some(rule) => Some(rule.pattern.clone()),
        None => None,
    }
}

/// Decides whether `record` is kept under the configuration of `config_source`.
pub fn filter_log<C: Configuration>(record: &LogRecord, config_source: &C) -> (r: Result<bool, FilterError>)
    ensures
        r is Ok == verdict(config_source.config_spec(), *record) is Some,
        r matches Ok(keep) ==> verdict(config_source.config_spec(), *record) == Some(keep),
        record.log is None ==> r matches Err(FilterError::MissingLog),
        record.log is Some ==> match record_rule(config_source.config_spec(), *record) {
            Some(hit) => !regex_compiles(hit.1) ==> (r matches Err(FilterError::InvalidPattern { container, namespace, pod, pattern })
                && (container@, namespace@, pod@) == hit.0 && pattern@ == hit.1),
            None => r == Ok::<bool, FilterError>(true),
        },
{
    let log = match &record.log {
        Some(log) => log,
        None => {
            return Err(FilterError::MissingLog);
        },
    };
    let container_name = field_text(&record.container_name);
    let namespace_name = field_text(&record.namespace_name);
    let pod_name = extract_pod_name(field_text(&record.pod_name));
    let config = config_source.get_config();
    match resolve_rule(config, container_name, namespace_name, pod_name.as_str()) {
        None => Ok(true),
        Some(rule) => match Pattern::compile(rule.pattern.as_str()) {
            Ok(pattern) => Ok(pattern.is_match(log.as_str())),
            Err(_) => Err(
                FilterError::InvalidPattern {
                    container: rule.container.clone(),
                    namespace: rule.namespace.clone(),
                    pod: rule.pod.clone(),
                    pattern: rule.pattern.clone(),
                },
            ),
        },
    }
}

/// The reply for a dropped record: nothing is forwarded.
pub fn skip_log() -> (r: Option<Vec<u8>>)
    ensures
        r is None,
{
    None
}

/// The reply for a kept record: a copy of the record's bytes, unchanged.
pub fn keep_log(slice_record: &[u8]) -> (r: Option<Vec<u8>>)
    ensures
        r matches Some(v) && v@ == slice_record@,
{
    let mut result: Vec<u8> = Vec::new();
    let mut i: usize = 0;
    while i < slice_record.len()
        invariant
            i <= slice_record@.len(),
            result@ == slice_record@.subrange(0, i as int),
        decreases slice_record@.len() - i,
    {
        result.push(slice_record[i]);
        i = i + 1;
        assert(result@ =~= slice_record@.subrange(0, i as int));
    }
    assert(result@ =~= slice_record@);
    Some(result)
}

/// Decides `record`, whose raw bytes are `record_bytes`, and gives what is
/// forwarded: the bytes unchanged when the record is kept, nothing when it
/// is dropped.
pub fn filter_record<C: Configuration>(record_bytes: &[u8], record: &LogRecord, config_source: &C) -> (r: Result<Option<Vec<u8>>, FilterError>)
    ensures
        match r {
            Ok(out) => verdict(config_source.config_spec(), *record) == Some(out is Some)
                && (out matches Some(v) ==> v@ == record_bytes@),
            Err(_) => verdict(config_source.config_spec(), *record) is None,
        },
{
    match filter_log(record, config_source) {
        Ok(true) => Ok(keep_log(record_bytes)),
        Ok(false) => Ok(skip_log()),
        Err(e) => Err(e),
    }
}

/// When none of the eight keys tried for a record holds a pattern, the
/// record is kept.
pub proof fn lemma_no_rule_keeps(config: FilterConfig, record: LogRecord)
    requires
        record.log is Some,
        forall|j: int| 0 <= j < 8 ==> config.entry(#[trigger] precedence(
            text_or_empty(record.container_name),
            text_or_empty(record.namespace_name),
            normalized_pod_name(text_or_empty(record.pod_name)),
        )[j]) is None,
    ensures
        verdict(config, record) == Some(true),
{
    let keys = precedence(
        text_or_empty(record.container_name),
        text_or_empty(record.namespace_name),
        normalized_pod_name(text_or_empty(record.pod_name)),
    );
    assert(config.entry(keys[0]) is None);
    assert(config.entry(keys[1]) is None);
    assert(config.entry(keys[2]) is None);
    assert(config.entry(keys[3]) is None);
    assert(config.entry(keys[4]) is None);
    assert(config.entry(keys[5]) is None);
    assert(config.entry(keys[6]) is None);
    assert(config.entry(keys[7]) is None);
    reveal_with_fuel(first_hit, 9);
    assert(keys.drop_first().drop_first().drop_first().drop_first().drop_first().drop_first().drop_first().drop_first().len() == 0);
}

/// The first of the eight keys, in precedence order, that holds a pattern
/// decides: a key holding a pattern wins over every later key.
pub proof fn lemma_first_configured_level_wins(config: FilterConfig, c: Seq<char>, n: Seq<char>, p: Seq<char>, i: int)
    requires
        0 <= i < 8,
        forall|j: int| 0 <= j < i ==> config.entry(#[trigger] precedence(c, n, p)[j]) is None,
        config.entry(precedence(c, n, p)[i]) is Some,
    ensures
        resolve(config, c, n, p) == Some((precedence(c, n, p)[i], config.entry(precedence(c, n, p)[i])->Some_0)),
{
    lemma_first_hit_at(config, precedence(c, n, p), i);
}

proof fn lemma_first_hit_at(config: FilterConfig, keys: Seq<Key>, i: int)
    requires
        0 <= i < keys.len(),
        forall|j: int| 0 <= j < i ==> config.entry(#[trigger] keys[j]) is None,
        config.entry(keys[i]) is Some,
    ensures
        first_hit(config, keys) == Some((keys[i], config.entry(keys[i])->Some_0)),
    decreases i,
{
    if i > 0 {
        assert(config.entry(keys[0]) is None);
        let rest = keys.drop_first();
        assert forall|j: int| 0 <= j < i - 1 implies config.entry(#[trigger] rest[j]) is None by {
            assert(rest[j] == keys[j + 1]);
        }
        lemma_first_hit_at(config, rest, i - 1);
    }
}

/// A pattern stored under the exact (container, namespace, pod) key is the
/// one that applies, whatever the wildcard keys hold.
pub proof fn lemma_exact_key_preferred(config: FilterConfig, c: Seq<char>, n: Seq<char>, p: Seq<char>)
    requires
        config.entry((c, n, p)) is Some,
    ensures
        resolve(config, c, n, p) == Some(((c, n, p), config.entry((c, n, p))->Some_0)),
{
    lemma_first_configured_level_wins(config, c, n, p, 0);
}

/// Among wildcard keys, containers outrank pods and pods outrank
/// namespaces: `(c, *, p)` wins over `(*, n, p)`, which wins over
/// `(*, *, p)`, which wins over `(*, n, *)`.
pub proof fn lemma_wildcard_precedence(config: FilterConfig, c: Seq<char>, n: Seq<char>, p: Seq<char>)
    requires
        config.entry((c, n, p)) is None,
        config.entry((c, n, wildcard())) is None,
    ensures
        config.entry((c, wildcard(), p)) is Some ==> resolve(config, c, n, p) == Some(((c, wildcard(), p), config.entry((c, wildcard(), p))->Some_0)),
        config.entry((c, wildcard(), p)) is None && config.entry((c, wildcard(), wildcard())) is None
            && config.entry((wildcard(), n, p)) is Some
            ==> resolve(config, c, n, p) == Some(((wildcard(), n, p), config.entry((wildcard(), n, p))->Some_0)),
        config.entry((c, wildcard(), p)) is None && config.entry((c, wildcard(), wildcard())) is None
            && config.entry((wildcard(), n, p)) is None && config.entry((wildcard(), wildcard(), p)) is Some
            ==> resolve(config, c, n, p) == Some(((wildcard(), wildcard(), p), config.entry((wildcard(), wildcard(), p))->Some_0)),
        config.entry((c, wildcard(), p)) is None && config.entry((c, wildcard(), wildcard())) is None
            && config.entry((wildcard(), n, p)) is None && config.entry((wildcard(), wildcard(), p)) is None
            && config.entry((wildcard(), n, wildcard())) is Some
            ==> resolve(config, c, n, p) == Some(((wildcard(), n, wildcard()), config.entry((wildcard(), n, wildcard()))->Some_0)),
{
    let w = wildcard();
    if config.entry((c, w, p)) is Some {
        lemma_first_configured_level_wins(config, c, n, p, 2);
    } else if config.entry((c, w, w)) is None {
        if config.entry((w, n, p)) is Some {
            lemma_first_configured_level_wins(config, c, n, p, 4);
        } else if config.entry((w, w, p)) is Some {
            lemma_first_configured_level_wins(config, c, n, p, 5);
        } else if config.entry((w, n, w)) is Some {
            lemma_first_configured_level_wins(config, c, n, p, 6);
        }
    }
}

} // verus!
