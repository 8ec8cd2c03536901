//! The configuration: where the roots of the platform lie, and how the
//! directory of a site is named after the site.
//!
//! The directory of a site is written as a template. The template may hold
//! the variables `%fqdn%`, `%subdomain%`, `%domain%` and `%tld%`, and parts
//! its components with `/`. Whether a name needs parts is read off the
//! template alone. Where it needs them, the four variables are replaced one
//! after the other, each over the whole text as it then stands.

use crate::path::{is_separator, join, join_path, normalize, normalize_str, separator};
use crate::runner::site::{option_view, Site, SiteView};
use crate::services::tld::{decompose, extract_domain_parts, SuffixTable};
use crate::text::{
    contains, contains_str, lemma_map_of_absent, lemma_map_of_first, lemma_replace_absent,
    lemma_replace_whole, map_of, occurs_at, pairs_view, replace, replace_str, same,
};
use vstd::prelude::*;

verus! {

/// Where a root lies when the configuration does not say: the database, the
/// sites and the recipes have such a place, no other key has.
pub open spec fn default_root(key: Seq<char>) -> Option<Seq<char>> {
    if key == "db"@ {
        Some("/var/db/alkane"@)
    } else if key == "sites"@ {
        Some("/var/wwwroot"@)
    } else if key == "recipes"@ {
        Some("/usr/local/libexec/alkane"@)
    } else {
        None
    }
}

/// The places where a configuration file is looked for, first to last.
pub open spec fn config_paths() -> Seq<Seq<char>> {
    seq![".alkane.conf"@, "/etc/alkane.conf"@, "/usr/local/etc/alkane.conf"@]
}

/// Whether a template speaks of a part of the name: of the sub-domain, the
/// domain or the suffix.
pub open spec fn has_parts_variables(template: Seq<char>) -> bool {
    contains(template, "%subdomain%"@) || contains(template, "%domain%"@) || contains(
        template,
        "%tld%"@,
    )
}

/// The configuration of the platform.
#[derive(Debug)]
pub struct AlkaneConfig {
    /// The root directories, by key. Of two entries with one key the first
    /// counts.
    roots: Vec<(String, String)>,
    /// The template for the directory of a site.
    site_directory_template: String,
    /// The separator of path components.
    separator: String,
}

/// The configuration, as text.
pub ghost struct AlkaneConfigView {
    pub roots: Map<Seq<char>, Seq<char>>,
    pub site_directory_template: Seq<char>,
    pub separator: Seq<char>,
}

impl AlkaneConfigView {
    /// The root for a key: the configured one, else the default.
    pub open spec fn root(self, key: Seq<char>) -> Option<Seq<char>> {
        if self.roots.contains_key(key) {
            Some(self.roots[key])
        } else {
            default_root(key)
        }
    }

    /// The template for the directory of a site, with `/` turned into the
    /// separator.
    pub open spec fn template(self) -> Seq<char> {
        normalize(self.site_directory_template, self.separator)
    }

    /// The directory of a site below the sites' root. Where the template
    /// speaks of a part of the name, the name has to have parts, and the
    /// variables are replaced one after the other, each over the whole
    /// text as it then stands: `%fqdn%` by the name, then `%subdomain%`,
    /// `%domain%` and `%tld%` by the parts. Where the template speaks of no
    /// part, `%fqdn%` is replaced by the name, whatever the name is, and
    /// nothing more is read in the result.
    pub open spec fn site_subdir(self, suffixes: Seq<Seq<char>>, site_name: Seq<char>) -> Option<
        Seq<char>,
    > {
        let named = replace(self.template(), "%fqdn%"@, site_name);
        if has_parts_variables(self.template()) {
            match decompose(suffixes, site_name) {
                Some(parts) => Some(
                    replace(
                        replace(replace(named, "%subdomain%"@, parts.0), "%domain%"@, parts.1),
                        "%tld%"@,
                        parts.2,
                    ),
                ),
                None => None,
            }
        } else {
            Some(named)
        }
    }

    /// The directory of a site: its directory below the sites' root, put
    /// under that root.
    pub open spec fn site_path(self, suffixes: Seq<Seq<char>>, site_name: Seq<char>) -> Option<
        Seq<char>,
    > {
        match (self.root("sites"@), self.site_subdir(suffixes, site_name)) {
            (Some(root), Some(subdir)) => Some(
                join_path(normalize(root, self.separator), subdir, self.separator),
            ),
            _ => None,
        }
    }

    /// The site of a name, where its directory can be told.
    pub open spec fn site(
        self,
        suffixes: Seq<Seq<char>>,
        site_name: Seq<char>,
        context: Option<Seq<char>>,
    ) -> Option<SiteView> {
        match self.site_path(suffixes, site_name) {
            Some(path) => Some(SiteView { name: site_name, path, context }),
            None => None,
        }
    }
}

impl View for AlkaneConfig {
    type V = AlkaneConfigView;

    closed spec fn view(&self) -> AlkaneConfigView {
        AlkaneConfigView {
            roots: map_of(pairs_view(self.roots@)),
            site_directory_template: self.site_directory_template@,
            separator: self.separator@,
        }
    }
}

/// The database, the sites and the recipes always have a root.
pub proof fn lemma_known_roots_resolve(config: AlkaneConfigView)
    ensures
        config.root("db"@) is Some,
        config.root("sites"@) is Some,
        config.root("recipes"@) is Some,
{
    reveal_strlit("db");
    reveal_strlit("sites");
    reveal_strlit("recipes");
}

/// A template that speaks of no part of the name gives every name a
/// directory: the name need not have parts, and is put in as it is.
pub proof fn lemma_whole_name_suffices(
    config: AlkaneConfigView,
    suffixes: Seq<Seq<char>>,
    site_name: Seq<char>,
)
    requires
        !has_parts_variables(config.template()),
    ensures
        config.site_subdir(suffixes, site_name) == Some(
            replace(config.template(), "%fqdn%"@, site_name),
        ),
        config.site_path(suffixes, site_name) is Some,
{
    lemma_known_roots_resolve(config);
}

/// The template `%fqdn%` gives every name itself as its directory below
/// the sites' root, whatever the name holds and whatever the separator is.
pub proof fn lemma_whole_name_template(
    config: AlkaneConfigView,
    suffixes: Seq<Seq<char>>,
    site_name: Seq<char>,
)
    requires
        config.site_directory_template == "%fqdn%"@,
    ensures
        config.site_subdir(suffixes, site_name) == Some(site_name),
{
    reveal_strlit("%fqdn%");
    reveal_strlit("%subdomain%");
    reveal_strlit("%domain%");
    reveal_strlit("%tld%");
    let whole = "%fqdn%"@;
    assert(!contains(whole, seq!['/'])) by {
        assert forall|at: int| !occurs_at(whole, seq!['/'], at) by {
            if occurs_at(whole, seq!['/'], at) {
                assert(whole.subrange(at, at + 1)[0] == whole[at]);
            }
        }
    }
    lemma_replace_absent(whole, seq!['/'], config.separator);
    assert(config.template() == whole);
    assert(!contains(whole, "%tld%"@)) by {
        assert forall|at: int| !occurs_at(whole, "%tld%"@, at) by {
            if occurs_at(whole, "%tld%"@, at) {
                assert(whole.subrange(at, at + 5)[0] == whole[at]);
                assert(whole.subrange(at, at + 5)[1] == whole[at + 1]);
            }
        }
    }
    lemma_replace_whole(whole, site_name);
}

/// A site has no directory exactly where the template speaks of a part of
/// the name and the name has no parts.
pub proof fn lemma_site_path_needs_parts(
    config: AlkaneConfigView,
    suffixes: Seq<Seq<char>>,
    site_name: Seq<char>,
)
    ensures
        config.site_path(suffixes, site_name) is None <==> has_parts_variables(config.template())
            && decompose(suffixes, site_name) is None,
{
    lemma_known_roots_resolve(config);
}

impl AlkaneConfig {
    /// A configuration with the given roots and template. Paths are parted
    /// as the machine that runs this parts them: by `/` or by `\`.
    pub fn new(roots: Vec<(String, String)>, site_directory_template: String) -> (config: Self)
        ensures
            config@.roots == map_of(pairs_view(roots@)),
            config@.site_directory_template == site_directory_template@,
            is_separator(config@.separator),
    {
        let separator = separator();
        Self::with_separator(roots, site_directory_template, separator.as_str())
    }

    /// A configuration with the given roots and template, whose paths are
    /// parted by the given separator.
    pub fn with_separator(
        roots: Vec<(String, String)>,
        site_directory_template: String,
        separator: &str,
    ) -> (config: Self)
        ensures
            config@ == (AlkaneConfigView {
                roots: map_of(pairs_view(roots@)),
                site_directory_template: site_directory_template@,
                separator: separator@,
            }),
    {
        AlkaneConfig { roots, site_directory_template, separator: String::from_str(separator) }
    }

    /// The template for the directory of a site.
    pub fn site_directory_template(&self) -> (template: String)
        ensures
            template@ == self@.site_directory_template,
    {
        self.site_directory_template.clone()
    }

    /// The configured roots, by key, as they were given.
    pub fn roots(&self) -> (roots: Vec<(String, String)>)
        ensures
            map_of(pairs_view(roots@)) == self@.roots,
    {
        let mut roots: Vec<(String, String)> = Vec::new();
        let mut at: usize = 0;
        while at < self.roots.len()
            invariant
                at <= self.roots.len(),
                pairs_view(roots@) == pairs_view(self.roots@).take(at as int),
            decreases self.roots.len() - at,
        {
            let ghost before = pairs_view(roots@);
            roots.push((self.roots[at].0.clone(), self.roots[at].1.clone()));
            assert(pairs_view(roots@) =~= before.push(pairs_view(self.roots@)[at as int]));
            assert(pairs_view(self.roots@).take(at + 1) =~= before.push(
                pairs_view(self.roots@)[at as int],
            ));
            at += 1;
        }
        assert(pairs_view(self.roots@).take(at as int) =~= pairs_view(self.roots@));
        roots
    }

    /// The separator of path components that this configuration uses.
    pub fn separator(&self) -> (separator: String)
        ensures
            separator@ == self@.separator,
    {
        self.separator.clone()
    }

    /// The places where a configuration file is looked for, first to last.
    pub fn candidates() -> (paths: Vec<String>)
        ensures
            paths@.len() == config_paths().len(),
            forall|i: int| 0 <= i < paths@.len() ==> (#[trigger] paths@[i])@ == config_paths()[i],
    {
        let mut paths: Vec<String> = Vec::new();
        paths.push(String::from_str(".alkane.conf"));
        paths.push(String::from_str("/etc/alkane.conf"));
        paths.push(String::from_str("/usr/local/etc/alkane.conf"));
        paths
    }

    /// The configuration file to read: the first of the candidates that is
    /// there. `present` says of each candidate, in order, whether it is; a
    /// candidate of which it says nothing counts as missing.
    pub fn find(present: &Vec<bool>) -> (path: Option<String>)
        ensures
            match path {
                Some(found) => exists|i: int|
                    {
                        &&& 0 <= i < config_paths().len()
                        &&& i < present@.len()
                        &&& present@[i]
                        &&& found@ == config_paths()[i]
                        &&& forall|j: int| 0 <= j < i ==> !present@[j]
                    },
                None => forall|i: int|
                    0 <= i < config_paths().len() && i < present@.len() ==> !present@[i],
            },
    {
        let mut paths = Self::candidates();
        let mut at: usize = 0;
        while at < paths.len() && at < present.len()
            invariant
                paths@.len() == config_paths().len(),
                forall|i: int|
                    0 <= i < paths@.len() ==> (#[trigger] paths@[i])@ == config_paths()[i],
                at <= paths.len(),
                forall|j: int| 0 <= j < at && j < present@.len() ==> !present@[j],
            decreases paths.len() - at,
        {
            if present[at] {
                let found = paths.swap_remove(at);
                assert(found@ == config_paths()[at as int]);
                return Some(found);
            }
            at += 1;
        }
        None
    }

    /// The root directory for a key: the configured one, else the default
    /// one, else none.
    pub fn get_root(&self, key: &str) -> (root: Option<String>)
        ensures
            option_view(root) == self@.root(key@),
    {
        let ghost pairs = pairs_view(self.roots@);
        let mut at: usize = 0;
        while at < self.roots.len()
            invariant
                pairs == pairs_view(self.roots@),
                at <= self.roots.len(),
                forall|j: int| 0 <= j < at ==> pairs[j].0 != key@,
            decreases self.roots.len() - at,
        {
            if same(self.roots[at].0.as_str(), key) {
                proof {
                    lemma_map_of_first(pairs, key@, at as int);
                }
                return Some(self.roots[at].1.clone());
            }
            at += 1;
        }
        proof {
            lemma_map_of_absent(pairs, key@);
        }
        if same(key, "db") {
            Some(String::from_str("/var/db/alkane"))
        } else if same(key, "sites") {
            Some(String::from_str("/var/wwwroot"))
        } else if same(key, "recipes") {
            Some(String::from_str("/usr/local/libexec/alkane"))
        } else {
            None
        }
    }

    /// The site of a name: the name, its directory, and the context as it
    /// was given. `None` where the directory cannot be told.
    pub fn get_site(&self, site_name: &str, context: Option<String>, suffixes: &SuffixTable) -> (site:
        Option<Site>)
        ensures
            site is Some == self@.site(suffixes@, site_name@, option_view(context)) is Some,
            site matches Some(found) ==> Some(found@) == self@.site(
                suffixes@,
                site_name@,
                option_view(context),
            ),
    {
        match self.get_site_path(site_name, suffixes) {
            Some(path) => Some(Site { name: String::from_str(site_name), path, context }),
            None => None,
        }
    }

    /// The directory of a site. `None` where the template asks for parts of
    /// a name that has none.
    pub fn get_site_path(&self, site_name: &str, suffixes: &SuffixTable) -> (path: Option<String>)
        ensures
            option_view(path) == self@.site_path(suffixes@, site_name@),
    {
        let root = match self.get_root("sites") {
            Some(root) => root,
            None => {
                return None;
            },
        };
        let root = normalize_str(root.as_str(), self.separator.as_str());
        match self.resolve_site_subdir(site_name, suffixes) {
            Some(subdir) => Some(join(root.as_str(), subdir.as_str(), self.separator.as_str())),
            None => None,
        }
    }

    /// The directory of a site below the sites' root.
    pub fn resolve_site_subdir(&self, site_name: &str, suffixes: &SuffixTable) -> (subdir: Option<
        String,
    >)
        ensures
            option_view(subdir) == self@.site_subdir(suffixes@, site_name@),
    {
        let template = normalize_str(
            self.site_directory_template.as_str(),
            self.separator.as_str(),
        );
        let named = replace_str(template.as_str(), "%fqdn%", site_name);
        if contains_domain_parts_variables(template.as_str()) {
            match extract_domain_parts(site_name, suffixes) {
                Some(parts) => {
                    let first = replace_str(named.as_str(), "%subdomain%", parts.0.as_str());
                    let second = replace_str(first.as_str(), "%domain%", parts.1.as_str());
                    Some(replace_str(second.as_str(), "%tld%", parts.2.as_str()))
                },
                None => None,
            }
        } else {
            Some(named)
        }
    }
}

/// Whether a template speaks of a part of the name.
pub fn contains_domain_parts_variables(template: &str) -> (found: bool)
    ensures
        found == has_parts_variables(template@),
{
    contains_str(template, "%subdomain%") || contains_str(template, "%domain%") || contains_str(
        template,
        "%tld%",
    )
}

} // verus!
