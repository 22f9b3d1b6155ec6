//! The filter configuration: patterns keyed by (container, namespace, pod),
//! and the providers that hand it to the filter.
use vstd::prelude::*;
use vstd::string::*;

verus! {

/// One configured pattern and the (container, namespace, pod) key it is
/// stored under; any part of the key may be the wildcard `"*"`.
pub struct FilterRule {
    pub container: String,
    pub namespace: String,
    pub pod: String,
    pub pattern: String,
}

impl FilterRule {
    pub open spec fn key(&self) -> (Seq<char>, Seq<char>, Seq<char>) {
        (self.container@, self.namespace@, self.pod@)
    }
}

/// The pattern that the last rule of `rules` stored under `key` holds.
pub open spec fn last_pattern(rules: Seq<FilterRule>, key: (Seq<char>, Seq<char>, Seq<char>)) -> Option<Seq<char>>
    decreases rules.len(),
{
    if rules.len() == 0 {
        None
    } else if rules.last().key() == key {
        Some(rules.last().pattern@)
    } else {
        last_pattern(rules.drop_last(), key)
    }
}

/// A three-level mapping from (container, namespace, pod) to a pattern.
/// A later rule under the same key replaces an earlier one.
pub struct FilterConfig {
    rules: Vec<FilterRule>,
}

impl FilterConfig {
    pub closed spec fn rules(&self) -> Seq<FilterRule> {
        self.rules@
    }

    /// The pattern stored under exactly this key, if any.
    pub open spec fn entry(&self, key: (Seq<char>, Seq<char>, Seq<char>)) -> Option<Seq<char>> {
        last_pattern(self.rules(), key)
    }

    /// A configuration with no rule.
    pub fn new() -> (r: FilterConfig)
        ensures
            forall|key: (Seq<char>, Seq<char>, Seq<char>)| (#[trigger] r.entry(key)) is None,
    {
        FilterConfig { rules: Vec::new() }
    }

    /// Stores `pattern` under (container, namespace, pod), replacing what was
    /// stored there.
    pub fn insert(&mut self, container: String, namespace: String, pod: String, pattern: String)
        ensures
            forall|key: (Seq<char>, Seq<char>, Seq<char>)| #[trigger] final(self).entry(key) == if key == (container@, namespace@, pod@) {
                Some(pattern@)
            } else {
                old(self).entry(key)
            },
    {
        let rule = FilterRule { container, namespace, pod, pattern };
        self.rules.push(rule);
        assert(self.rules@.drop_last() =~= old(self).rules@);
    }

    /// The rule stored under exactly (container, namespace, pod), if any.
    pub fn lookup(&self, container: &str, namespace: &str, pod: &str) -> (r: Option<&FilterRule>)
        ensures
            self.entry((container@, namespace@, pod@)) matches Some(p) ==> r matches Some(rule) && rule.key() == (container@, namespace@, pod@) && rule.pattern@ == p,
            self.entry((container@, namespace@, pod@)) is None ==> r is None,
    {
        let key = Ghost((container@, namespace@, pod@));
        let mut i: usize = self.rules.len();
        assert(self.rules@.take(i as int) =~= self.rules@);
        while i > 0
            invariant
                i <= self.rules@.len(),
                key@ == (container@, namespace@, pod@),
                last_pattern(self.rules@.take(i as int), key@) == self.entry(key@),
            decreases i,
        {
            let rule = &self.rules[i - 1];
            assert(self.rules@.take(i as int).last() == self.rules@[i - 1]);
            if same_text(&rule.container, container) && same_text(&rule.namespace, namespace)
                && same_text(&rule.pod, pod) {
                return Some(rule);
            }
            assert(self.rules@.take(i as int).drop_last() =~= self.rules@.take(i - 1));
            i = i - 1;
        }
        None
    }
}

/// Whether `a` and `b` hold the same characters.
fn same_text(a: &str, b: &str) -> (r: bool)
    ensures
        r == (a@ == b@),
{
    let n = a.unicode_len();
    if n != b.unicode_len() {
        return false;
    }
    let mut i: usize = 0;
    while i < n
        invariant
            i <= n == a@.len() == b@.len(),
            forall|j: int| 0 <= j < i ==> a@[j] == b@[j],
        decreases n - i,
    {
        if a.get_char(i) != b.get_char(i) {
            return false;
        }
        i = i + 1;
    }
    assert(a@ =~= b@);
    true
}

/// A source of the filter configuration.
pub trait Configuration {
    spec fn config_spec(&self) -> FilterConfig;

    fn get_config(&self) -> (r: &FilterConfig)
        ensures
            *r == self.config_spec(),
    ;
}

/// The configuration read from the configuration file.
pub struct ConfigFileConfiguration {
    config: FilterConfig,
}

/// A configuration given directly, as a fixture.
pub struct InMemoryConfiguration {
    config: FilterConfig,
}

impl Configuration for ConfigFileConfiguration {
    closed spec fn config_spec(&self) -> FilterConfig {
        self.config
    }

    fn get_config(&self) -> (r: &FilterConfig) {
        &self.config
    }
}

impl Configuration for InMemoryConfiguration {
    closed spec fn config_spec(&self) -> FilterConfig {
        self.config
    }

    fn get_config(&self) -> (r: &FilterConfig) {
        &self.config
    }
}

impl ConfigFileConfiguration {
    /// Wraps the configuration parsed from the file at [`get_config_file_path`].
    pub fn new(config: FilterConfig) -> (r: ConfigFileConfiguration)
        ensures
            r.config_spec() == config,
    {
        ConfigFileConfiguration { config }
    }
}

impl InMemoryConfiguration {
    pub fn new(config: FilterConfig) -> (r: InMemoryConfiguration)
        ensures
            r.config_spec() == config,
    {
        InMemoryConfiguration { config }
    }
}

pub open spec fn default_config_path() -> Seq<char> {
    seq!['.', '/', 'c', 'o', 'n', 'f', 'i', 'g', '.', 'j', 's', 'o', 'n']
}

/// The path of the configuration file: the value of the `CONFIG_PATH`
/// variable when it is set and not empty, else `./config.json`.
pub fn get_config_file_path(configured: Option<String>) -> (r: String)
    ensures
        r@ == match configured {
            Some(p) => if p@.len() > 0 {
                p@
            } else {
                default_config_path()
            },
            None => default_config_path(),
        },
{
    match configured {
        Some(p) => {
            if p.as_str().unicode_len() > 0 {
                return p;
            }
        },
        None => {},
    }
    proof {
        reveal_strlit("./config.json");
    }
    String::from_str("./config.json")
}

} // verus!
