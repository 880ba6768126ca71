//! Settings read from a per-user file and from a project file, and how the
//! two are combined.
use vstd::prelude::*;

verus! {

/// The name of the project settings file, looked for in the working
/// directory and each directory above it.
pub const PROJECT_CONFIG_FILE: &'static str = "Neo.toml";

/// The name of the per-user settings file, in the user's configuration
/// directory.
pub const GLOBAL_CONFIG_FILE: &'static str = "conf.toml";

/// An API key for a site.
#[derive(Debug, Clone, PartialEq, Eq)]
pub struct Key {
    pub key: String,
}

/// A password for a site; the user name is the site's name.
#[derive(Debug, Clone, PartialEq, Eq)]
pub struct Password {
    pub password: String,
}

/// The credential stored for a site.
#[derive(Debug, Clone, PartialEq, Eq)]
pub enum Auth {
    Key(Key),
    Password(Password),
}

/// Why a settings file could not be used.
#[derive(Debug, Clone, PartialEq, Eq)]
pub struct ConfigError {
    pub message: String,
}

/// Settings of one file, or of all files combined.
#[derive(Debug, Clone, PartialEq, Eq)]
pub struct Config {
    /// The local directory that holds the site's files.
    pub site_root: Option<String>,
    /// The site used where none is named.
    pub default_site: Option<String>,
    /// Credentials by site name; a later entry for a name overrides an
    /// earlier one.
    pub sites: Vec<(String, Auth)>,
}

/// The meaning of a `Config`.
pub struct ConfigView {
    pub site_root: Option<Seq<char>>,
    pub default_site: Option<Seq<char>>,
    pub sites: Map<Seq<char>, Auth>,
}

/// The view of an optional string.
pub open spec fn opt_view(o: Option<String>) -> Option<Seq<char>> {
    match o {
        Some(s) => Some(s@),
        None => None,
    }
}

/// The credential of each site name, the last entry for a name winning.
pub open spec fn site_map(entries: Seq<(String, Auth)>) -> Map<Seq<char>, Auth>
    decreases entries.len(),
{
    if entries.len() == 0 {
        Map::empty()
    } else {
        site_map(entries.drop_last()).insert(entries.last().0@, entries.last().1)
    }
}

impl View for Config {
    type V = ConfigView;

    open spec fn view(&self) -> ConfigView {
        ConfigView {
            site_root: opt_view(self.site_root),
            default_site: opt_view(self.default_site),
            sites: site_map(self.sites@),
        }
    }
}

/// No settings at all.
pub open spec fn empty_view() -> ConfigView {
    ConfigView { site_root: None, default_site: None, sites: Map::empty() }
}

/// The per-user settings overlaid by those of a project file found in
/// directory `dir`, where there is one. The project's values win for each
/// key; each site's credential is taken whole from the file that names the
/// site last. The site root is the project file's directory, and there is
/// none without a project file.
pub open spec fn merged(global: ConfigView, project: Option<(Seq<char>, ConfigView)>) -> ConfigView {
    match project {
        None => ConfigView { site_root: None, default_site: global.default_site, sites: global.sites },
        Some((dir, p)) => ConfigView {
            site_root: Some(dir),
            default_site: if p.default_site is Some {
                p.default_site
            } else {
                global.default_site
            },
            sites: global.sites.union_prefer_right(p.sites),
        },
    }
}

proof fn lemma_site_map_concat(a: Seq<(String, Auth)>, b: Seq<(String, Auth)>)
    ensures
        site_map(a + b) == site_map(a).union_prefer_right(site_map(b)),
    decreases b.len(),
{
    if b.len() == 0 {
        assert(a + b =~= a);
        assert(site_map(a).union_prefer_right(site_map(b)) =~= site_map(a));
    } else {
        let bl = b.drop_last();
        lemma_site_map_concat(a, bl);
        assert((a + b).drop_last() =~= a + bl);
        assert((a + b).last() == b.last());
        assert(site_map(a + b) =~= site_map(a).union_prefer_right(site_map(b)));
    }
}

proof fn lemma_site_map_tail(e: Seq<(String, Auth)>, i: int, name: Seq<char>)
    requires
        0 <= i <= e.len(),
        forall|j: int| i <= j < e.len() ==> (#[trigger] e[j]).0@ != name,
    ensures
        site_map(e).contains_key(name) == site_map(e.take(i)).contains_key(name),
        site_map(e)[name] == site_map(e.take(i))[name],
    decreases e.len(),
{
    if i == e.len() {
        assert(e.take(i) =~= e);
    } else {
        let d = e.drop_last();
        assert(e[e.len() - 1].0@ != name);
        assert forall|j: int| i <= j < d.len() implies (#[trigger] d[j]).0@ != name by {
            assert(d[j] == e[j]);
        }
        lemma_site_map_tail(d, i, name);
        assert(d.take(i) =~= e.take(i));
    }
}

/// The credential of a site entry that gives the field `key` or the field
/// `password`: an entry with both, or with neither, is no credential.
pub open spec fn auth_of_fields(key: Option<String>, password: Option<String>) -> Option<Auth> {
    match (key, password) {
        (Some(k), None) => Some(Auth::Key(Key { key: k })),
        (None, Some(p)) => Some(Auth::Password(Password { password: p })),
        _ => None,
    }
}

/// A site entry of a settings file, as written there.
#[derive(Debug, Clone, PartialEq, Eq)]
pub struct SiteFields {
    pub name: String,
    pub key: Option<String>,
    pub password: Option<String>,
}

/// Every entry of `entries` gives a credential.
pub open spec fn all_valid(entries: Seq<SiteFields>) -> bool {
    forall|i: int|
        0 <= i < entries.len() ==> (#[trigger] auth_of_fields(entries[i].key, entries[i].password)) is Some
}

impl Auth {
    /// The credential of a site entry that gives the field `key` or the field
    /// `password`: an entry with both, or with neither, is no credential.
    pub fn from_fields(key: Option<String>, password: Option<String>) -> (r: Option<Auth>)
        ensures
            r == auth_of_fields(key, password),
    {
        match (key, password) {
            (Some(k), None) => Some(Auth::Key(Key { key: k })),
            (None, Some(p)) => Some(Auth::Password(Password { password: p })),
            _ => None,
        }
    }
}

impl Config {
    /// No settings: no site root, no default site, no credentials.
    pub fn empty() -> (r: Config)
        ensures
            r@ == empty_view(),
            r.sites@.len() == 0,
    {
        let r = Config { site_root: None, default_site: None, sites: Vec::new() };
        assert(r@.sites =~= Map::<Seq<char>, Auth>::empty());
        r
    }

    /// The settings of one file, from its fields as written there; `None`
    /// where a site entry gives no credential.
    pub fn from_entries(
        site_root: Option<String>,
        default_site: Option<String>,
        entries: Vec<SiteFields>,
    ) -> (r: Option<Config>)
        ensures
            r is Some <==> all_valid(entries@),
            r matches Some(c) ==> {
                &&& c.site_root == site_root
                &&& c.default_site == default_site
                &&& c.sites@.len() == entries@.len()
                &&& forall|i: int|
                    0 <= i < entries@.len() ==> (#[trigger] c.sites@[i]).0 == entries@[i].name
                        && Some(c.sites@[i].1) == auth_of_fields(
                        entries@[i].key,
                        entries@[i].password,
                    )
            },
    {
        let ghost all = entries@;
        let mut rest = entries;
        let mut sites: Vec<(String, Auth)> = Vec::new();
        while rest.len() > 0
            invariant
                all == entries@,
                sites@.len() + rest@.len() == all.len(),
                rest@ == all.skip(sites@.len() as int),
                forall|i: int|
                    0 <= i < sites@.len() ==> (#[trigger] sites@[i]).0 == all[i].name && Some(
                        sites@[i].1,
                    ) == auth_of_fields(all[i].key, all[i].password),
            decreases rest@.len(),
        {
            let ghost k = sites@.len() as int;
            assert(rest@[0] == all[k]);
            let e = rest.remove(0);
            assert(e == all[k]);
            assert(rest@ =~= all.skip(k + 1));
            match Auth::from_fields(e.key, e.password) {
                Some(auth) => sites.push((e.name, auth)),
                None => {
                    assert(auth_of_fields(all[k].key, all[k].password) is None);
                    return None;
                },
            }
        }
        assert(all_valid(all)) by {
            assert forall|i: int| 0 <= i < all.len() implies (#[trigger] auth_of_fields(
                all[i].key,
                all[i].password,
            )) is Some by {
                assert(Some(sites@[i].1) == auth_of_fields(all[i].key, all[i].password));
            }
        }
        Some(Config { site_root, default_site, sites })
    }

    /// The credential stored for the site `name`.
    pub fn site(&self, name: &String) -> (r: Option<&Auth>)
        ensures
            r matches Some(a) ==> self@.sites.contains_key(name@) && *a == self@.sites[name@],
            r is None ==> !self@.sites.contains_key(name@),
    {
        let ghost e = self.sites@;
        let mut i: usize = self.sites.len();
        while i > 0
            invariant
                e == self.sites@,
                i <= e.len(),
                forall|j: int| i <= j < e.len() ==> (#[trigger] e[j]).0@ != name@,
            decreases i,
        {
            i = i - 1;
            if self.sites[i].0 == *name {
                proof {
                    lemma_site_map_tail(e, i + 1, name@);
                    assert(e.take(i + 1).drop_last() =~= e.take(i as int));
                }
                return Some(&self.sites[i].1);
            }
        }
        proof {
            lemma_site_map_tail(e, 0, name@);
            assert(e.take(0) =~= Seq::<(String, Auth)>::empty());
        }
        None
    }

    /// Combines the per-user settings with those of the project file found in
    /// a directory, where there is one. Settings that could not be read leave
    /// no settings at all: the caller goes on with what it is given directly.
    pub fn build(
        global: Result<Config, ConfigError>,
        project: Option<(String, Result<Config, ConfigError>)>,
    ) -> (r: Config)
        ensures
            (global is Err || project matches Some((_, Err(_)))) ==> r@ == empty_view(),
            global matches Ok(g) ==> (project is None ==> r@ == merged(g@, None)),
            global matches Ok(g) ==> (project matches Some((dir, Ok(p))) ==> r@ == merged(
                g@,
                Some((dir@, p@)),
            )),
    {
        match global {
            Err(_) => Config::empty(),
            Ok(g) => match project {
                None => Config { site_root: None, default_site: g.default_site, sites: g.sites },
                Some((_, Err(_))) => Config::empty(),
                Some((dir, Ok(p))) => {
                    let ghost gv = g@;
                    let ghost pv = p@;
                    let default_site = match p.default_site {
                        Some(d) => Some(d),
                        None => g.default_site,
                    };
                    let mut sites = g.sites;
                    let mut extra = p.sites;
                    let ghost before = sites@;
                    let ghost added = extra@;
                    sites.append(&mut extra);
                    proof {
                        lemma_site_map_concat(before, added);
                    }
                    Config { site_root: Some(dir), default_site, sites }
                },
            },
        }
    }
}

/// Which directory's project file is used, given for each directory from
/// the working one upward (as `path::ancestors` lists them) whether it holds
/// one: the nearest that does, and none where no directory does.
pub fn nearest_project(found: &Vec<bool>) -> (r: Option<usize>)
    ensures
        r matches Some(i) ==> i < found@.len() && found@[i as int] && forall|j: int|
            0 <= j < i ==> !#[trigger] found@[j],
        r is None ==> forall|j: int| 0 <= j < found@.len() ==> !#[trigger] found@[j],
{
    let mut k: usize = 0;
    while k < found.len()
        invariant
            k <= found@.len(),
            forall|j: int| 0 <= j < k ==> !#[trigger] found@[j],
        decreases found@.len() - k,
    {
        if found[k] {
            return Some(k);
        }
        k = k + 1;
    }
    None
}

/// Project settings override the per-user ones key by key, a site's
/// credential being replaced whole; the site root is the project file's
/// directory, and without a project file there is none.
pub proof fn project_overrides_global(
    global: ConfigView,
    project: ConfigView,
    dir: Seq<char>,
    name: Seq<char>,
)
    ensures
        project.sites.contains_key(name) ==> merged(global, Some((dir, project))).sites.contains_key(
            name,
        ) && merged(global, Some((dir, project))).sites[name] == project.sites[name],
        !project.sites.contains_key(name) ==> merged(
            global,
            Some((dir, project)),
        ).sites.contains_key(name) == global.sites.contains_key(name),
        !project.sites.contains_key(name) && global.sites.contains_key(name) ==> merged(
            global,
            Some((dir, project)),
        ).sites[name] == global.sites[name],
        project.default_site is Some ==> merged(global, Some((dir, project))).default_site
            == project.default_site,
        project.default_site is None ==> merged(global, Some((dir, project))).default_site
            == global.default_site,
        merged(global, Some((dir, project))).site_root == Some(dir),
        merged(global, None).site_root is None,
{
}

} // verus!
