//! Builders that are configured under names.

use vstd::prelude::*;

use crate::client::{BuildAuth, BuildAuthView};
use crate::collections::StrMap;
use crate::endpoint;
use crate::endpoint::{parse_relay_url, EndpointId};
use crate::error;
use crate::error::Error;
use crate::paths;
use crate::paths::join_path;
use crate::text;
use crate::text::{
    chars_of, clone_optional, concat2, concat3, concat4, join_strings, push_text, trim_text,
};

verus! {

pub const SYSTEM_BUILDERS_CONFIG_PATH: &'static str = "/etc/drv-thru/builders.json";

pub const BUILDERS_CONFIG_ENV: &'static str = "DRV_THRU_BUILDERS_CONFIG";

/// What is configured of a builder.
#[derive(Debug)]
pub struct SavedBuilder {
    pub endpoint_id: Option<String>,
    pub endpoint_id_file: Option<String>,
    pub relay_url: Option<String>,
}

impl Clone for SavedBuilder {
    fn clone(&self) -> (r: Self)
        ensures
            r == *self,
    {
        SavedBuilder {
            endpoint_id: clone_optional(&self.endpoint_id),
            endpoint_id_file: clone_optional(&self.endpoint_id_file),
            relay_url: clone_optional(&self.relay_url),
        }
    }
}

/// Builders by their names.
#[derive(Debug)]
pub struct BuildersConfig {
    pub builders: StrMap<SavedBuilder>,
}

// ---------------------------------------------------------------------------
// Where the configuration is
// ---------------------------------------------------------------------------

/// The configuration of a user.
pub open spec fn user_path(config_home: Option<Seq<char>>, home: Option<Seq<char>>) -> Option<
    Seq<char>,
> {
    match config_home {
        Some(config_home) => Some(paths::joined(config_home, "drv-thru/builders.json"@)),
        None => match home {
            Some(home) => Some(paths::joined(home, ".config/drv-thru/builders.json"@)),
            None => None,
        },
    }
}

/// The configuration of a user, by what `XDG_CONFIG_HOME` and `HOME` say.
pub fn user_config_path(config_home: Option<&str>, home: Option<&str>) -> (r: Option<String>)
    ensures
        text::optional_text(r) == user_path(
            text::optional_str(config_home),
            text::optional_str(home),
        ),
{
    match config_home {
        Some(config_home) => Some(join_path(config_home, "drv-thru/builders.json")),
        None => match home {
            Some(home) => Some(join_path(home, ".config/drv-thru/builders.json")),
            None => None,
        },
    }
}

/// The files that are read, in turn: the one that the environment names, or
/// that of the system and that of the user.
pub open spec fn config_files(
    env_config: Option<Seq<char>>,
    config_home: Option<Seq<char>>,
    home: Option<Seq<char>>,
) -> Seq<Seq<char>> {
    match env_config {
        Some(path) => seq![path],
        None => match user_path(config_home, home) {
            Some(path) => seq![SYSTEM_BUILDERS_CONFIG_PATH@, path],
            None => seq![SYSTEM_BUILDERS_CONFIG_PATH@],
        },
    }
}

pub fn config_paths(env_config: Option<&str>, config_home: Option<&str>, home: Option<&str>) -> (r:
    Vec<String>)
    ensures
        text::texts(r@) == config_files(
            text::optional_str(env_config),
            text::optional_str(config_home),
            text::optional_str(home),
        ),
{
    let mut list: Vec<String> = Vec::new();
    assert(text::texts(list@) =~= Seq::<Seq<char>>::empty());
    match env_config {
        Some(path) => {
            push_text(&mut list, path);
        },
        None => {
            push_text(&mut list, SYSTEM_BUILDERS_CONFIG_PATH);
            match user_config_path(config_home, home) {
                Some(path) => {
                    push_text(&mut list, path.as_str());
                },
                None => {},
            }
        },
    }
    assert(text::texts(list@) =~= config_files(
        text::optional_str(env_config),
        text::optional_str(config_home),
        text::optional_str(home),
    ));
    list
}

// ---------------------------------------------------------------------------
// Reading it
// ---------------------------------------------------------------------------

/// What became of reading a file of the configuration.
pub enum ReadConfig {
    Loaded { config: BuildersConfig },
    /// There is no such file.
    Missing { error: Error },
    Failed { error: Error },
}

/// The view of what became of reading a file.
pub enum ReadConfigView {
    Loaded { builders: Map<Seq<char>, SavedBuilder> },
    Missing { error: Seq<Seq<char>> },
    Failed { error: Seq<Seq<char>> },
}

impl View for ReadConfig {
    type V = ReadConfigView;

    open spec fn view(&self) -> ReadConfigView {
        match *self {
            ReadConfig::Loaded { config } => ReadConfigView::Loaded { builders: config.builders@ },
            ReadConfig::Missing { error } => ReadConfigView::Missing { error: error@ },
            ReadConfig::Failed { error } => ReadConfigView::Failed { error: error@ },
        }
    }
}

pub open spec fn read_views(list: Seq<ReadConfig>) -> Seq<ReadConfigView> {
    Seq::new(list.len(), |i: int| list[i]@)
}

/// What was read of files, in turn: the builders, where a later file counts
/// more, and whether there was any file. A file that the environment names has
/// to be there.
pub open spec fn collected(reads: Seq<ReadConfigView>, from_env: bool) -> Result<
    (Map<Seq<char>, SavedBuilder>, bool),
    Seq<Seq<char>>,
>
    decreases reads.len(),
{
    if reads.len() == 0 {
        Ok((Map::empty(), false))
    } else {
        match collected(reads.drop_last(), from_env) {
            Err(e) => Err(e),
            Ok((earlier, any)) => match reads.last() {
                ReadConfigView::Loaded { builders } => Ok(
                    (earlier.union_prefer_right(builders), true),
                ),
                ReadConfigView::Missing { error } => if from_env {
                    Err(error)
                } else {
                    Ok((earlier, any))
                },
                ReadConfigView::Failed { error } => Err(error),
            },
        }
    }
}

/// The builders that are configured.
pub open spec fn configured(
    paths: Seq<Seq<char>>,
    reads: Seq<ReadConfigView>,
    from_env: bool,
) -> Result<Map<Seq<char>, SavedBuilder>, Seq<Seq<char>>> {
    match collected(reads, from_env) {
        Err(e) => Err(e),
        Ok((builders, any)) => if any {
            Ok(builders)
        } else {
            Err(
                seq![
                    "builder config not found; checked "@ + text::join(paths, ", "@)
                        + "; configure services.drv-thru.client.builders.<name>, create ~/.config/drv-thru/builders.json, or pass --server"@,
                ],
            )
        },
    }
}

proof fn lemma_collected_fails(reads: Seq<ReadConfigView>, from_env: bool, n: int)
    requires
        0 <= n <= reads.len(),
        collected(reads.take(n), from_env) is Err,
    ensures
        collected(reads, from_env) == collected(reads.take(n), from_env),
    decreases reads.len() - n,
{
    if n < reads.len() {
        assert(reads.take(n + 1).drop_last() =~= reads.take(n));
        lemma_collected_fails(reads, from_env, n + 1);
    } else {
        assert(reads.take(n) =~= reads);
    }
}

/// Adds the builders of a configuration to others, in whose place they come.
fn add_builders(builders: &mut StrMap<SavedBuilder>, config: &BuildersConfig)
    ensures
        final(builders)@ == old(builders)@.union_prefer_right(config.builders@),
{
    let ghost before = builders@;
    let ghost added = config.builders@;
    let names: &Vec<String> = config.builders.key_list();
    let ghost all = config.builders.keys();
    let mut i: usize = 0;
    proof {
        assert(text::texts(names@).len() == names@.len());
    }
    while i < names.len()
        invariant
            i <= names@.len(),
            all == config.builders.keys(),
            added == config.builders@,
            text::texts(names@) == all,
            all.len() == names@.len(),
            forall|k: Seq<char>| added.contains_key(k) == #[trigger] all.contains(k),
            forall|k: Seq<char>|
                #![trigger builders@.contains_key(k)]
                builders@.contains_key(k) == (before.contains_key(k) || all.take(
                    i as int,
                ).contains(k)),
            forall|k: Seq<char>|
                #![trigger builders@[k]]
                builders@.contains_key(k) ==> builders@[k] == (if all.take(
                    i as int,
                ).contains(k) {
                    added[k]
                } else {
                    before[k]
                }),
        decreases names@.len() - i,
    {
        let name: String = names[i].clone();
        let ghost key = name@;
        assert(all[i as int] == key);
        let builder: SavedBuilder = config.builders.value_at(i).clone();
        let _ = builders.insert(name, builder);
        proof {
            let shorter = all.take(i as int);
            let longer = all.take(i + 1);
            assert forall|k: Seq<char>| #[trigger]
                longer.contains(k) == (shorter.contains(k) || k == key) by {
                assert(longer[i as int] == key);
                if shorter.contains(k) {
                    let j = choose|j: int| 0 <= j < shorter.len() && shorter[j] == k;
                    assert(longer[j] == k);
                }
                if longer.contains(k) {
                    let j = choose|j: int| 0 <= j < longer.len() && longer[j] == k;
                    if j < i {
                        assert(shorter[j] == k);
                    }
                }
            }
        }
        i = i + 1;
    }
    proof {
        assert(all.take(i as int) =~= all);
        assert(builders@ =~= before.union_prefer_right(added));
    }
}

/// Puts together what was read of the configuration.
pub fn collect_configs(paths: &[String], reads: Vec<ReadConfig>, from_env: bool) -> (r: Result<
    BuildersConfig,
    Error,
>)
    ensures
        match r {
            Ok(config) => configured(text::texts(paths@), read_views(reads@), from_env) == Ok::<
                Map<Seq<char>, SavedBuilder>,
                Seq<Seq<char>>,
            >(config.builders@),
            Err(e) => configured(text::texts(paths@), read_views(reads@), from_env) == Err::<
                Map<Seq<char>, SavedBuilder>,
                Seq<Seq<char>>,
            >(e@),
        },
{
    let ghost all = read_views(reads@);
    let mut builders: StrMap<SavedBuilder> = StrMap::new();
    let mut any: bool = false;
    let mut i: usize = 0;
    assert(all.take(0).len() == 0);
    while i < reads.len()
        invariant
            i <= reads@.len(),
            all == read_views(reads@),
            collected(all.take(i as int), from_env) == Ok::<
                (Map<Seq<char>, SavedBuilder>, bool),
                Seq<Seq<char>>,
            >((builders@, any)),
        decreases reads@.len() - i,
    {
        proof {
            assert(all.take(i + 1).drop_last() =~= all.take(i as int));
            assert(all.take(i + 1).last() == reads@[i as int]@);
        }
        match &reads[i] {
            ReadConfig::Loaded { config } => {
                add_builders(&mut builders, config);
                any = true;
            },
            ReadConfig::Missing { error } => {
                if from_env {
                    proof {
                        lemma_collected_fails(all, from_env, i + 1);
                    }
                    return Err(error.clone_error());
                }
            },
            ReadConfig::Failed { error } => {
                proof {
                    lemma_collected_fails(all, from_env, i + 1);
                }
                return Err(error.clone_error());
            },
        }
        i = i + 1;
    }
    assert(all.take(i as int) =~= all);
    if !any {
        return Err(
            Error::new(
                concat3(
                    "builder config not found; checked ",
                    join_strings(paths, ", ").as_str(),
                    "; configure services.drv-thru.client.builders.<name>, create ~/.config/drv-thru/builders.json, or pass --server",
                ),
            ),
        );
    }
    Ok(BuildersConfig { builders })
}

// ---------------------------------------------------------------------------
// A builder
// ---------------------------------------------------------------------------

/// What is said where no builder has a name.
pub open spec fn unknown_builder(name: Seq<char>, known: Seq<Seq<char>>) -> Seq<char> {
    if text::join(known, ", "@).len() == 0 {
        "builder '"@ + name + "' was not found; no builders are configured"@
    } else {
        "builder '"@ + name + "' was not found; configured builders: "@ + text::join(known, ", "@)
    }
}

/// The text that names a builder's endpoint: from the configuration, or from
/// the file that it names, which was read as `file`.
pub open spec fn endpoint_text(
    name: Seq<char>,
    builder: SavedBuilder,
    file: Result<Seq<char>, Seq<Seq<char>>>,
) -> Result<Seq<char>, Seq<Seq<char>>> {
    match (text::optional_text(builder.endpoint_id), text::optional_text(builder.endpoint_id_file)) {
        (Some(_), Some(_)) => Err(
            seq![
                "builder "@ + name + " must set only one of endpoint_id or endpoint_id_file"@,
            ],
        ),
        (Some(id), None) => Ok(id),
        (None, Some(path)) => match file {
            Ok(content) => Ok(text::trim(content)),
            Err(why) => Err(
                seq!["read endpoint_id_file for builder "@ + name + ": "@ + path] + why,
            ),
        },
        (None, None) => Err(
            seq!["builder "@ + name + " must set endpoint_id or endpoint_id_file"@],
        ),
    }
}

/// The same, where it is not empty.
pub open spec fn builder_endpoint_text(
    name: Seq<char>,
    builder: SavedBuilder,
    file: Result<Seq<char>, Seq<Seq<char>>>,
) -> Result<Seq<char>, Seq<Seq<char>>> {
    match endpoint_text(name, builder, file) {
        Err(e) => Err(e),
        Ok(id) => if id.len() == 0 {
            Err(seq!["endpoint id for builder "@ + name + " is empty"@])
        } else {
            Ok(id)
        },
    }
}

/// How a client gets to build on a builder whose endpoint was read as `id`, and
/// its relay URL, where it has one, as `relay_url`.
pub open spec fn auth_with(
    name: Seq<char>,
    id: Result<Seq<u8>, Seq<char>>,
    relay_url: Option<Result<Seq<char>, Seq<char>>>,
) -> Result<BuildAuthView, Seq<Seq<char>>> {
    match (id, relay_url) {
        (Err(why), _) => Err(seq!["parse endpoint id for builder "@ + name, why]),
        (Ok(_), Some(Err(why))) => Err(seq!["parse relay_url for builder "@ + name, why]),
        (Ok(server_id), Some(Ok(url))) => Ok(
            BuildAuthView::TrustedClient { server_id, relay_url: Some(url) },
        ),
        (Ok(server_id), None) => Ok(BuildAuthView::TrustedClient { server_id, relay_url: None }),
    }
}

/// The relay URL of a builder, where it has one, as it is read.
pub open spec fn relay_of(builder: SavedBuilder) -> Option<Result<Seq<char>, Seq<char>>> {
    match builder.relay_url {
        Some(written) => Some(endpoint::relay_url_read(written@)),
        None => None,
    }
}

/// The view of a relay URL that was read.
pub open spec fn relay_view(relay_url: Option<Result<String, String>>) -> Option<
    Result<Seq<char>, Seq<char>>,
> {
    match relay_url {
        Some(read) => Some(endpoint::read_text(read)),
        None => None,
    }
}

/// How a client gets to build on a builder that is configured.
pub open spec fn named_auth(
    name: Seq<char>,
    builders: Map<Seq<char>, SavedBuilder>,
    known: Seq<Seq<char>>,
    file: Result<Seq<char>, Seq<Seq<char>>>,
) -> Result<BuildAuthView, Seq<Seq<char>>> {
    if !builders.contains_key(name) {
        Err(seq![unknown_builder(name, known)])
    } else {
        let builder = builders[name];
        match builder_endpoint_text(name, builder, file) {
            Err(e) => Err(e),
            Ok(id) => auth_with(
                name,
                endpoint::endpoint_id_read(id),
                relay_of(builder),
            ),
        }
    }
}

/// The file that has to be read for a builder, if any.
pub fn endpoint_file<'a>(name: &str, config: &'a BuildersConfig) -> (r: Option<&'a str>)
    ensures
        text::optional_str(r) == (if config.builders@.contains_key(name@) && config.builders@[name@].endpoint_id is None {
            text::optional_text(config.builders@[name@].endpoint_id_file)
        } else {
            None
        }),
{
    match config.builders.get(name) {
        None => None,
        Some(builder) => match &builder.endpoint_id {
            Some(_) => None,
            None => match &builder.endpoint_id_file {
                Some(path) => Some(path.as_str()),
                None => None,
            },
        },
    }
}

/// The text that names a builder's endpoint.
pub fn endpoint_id_text(name: &str, builder: &SavedBuilder, file: Result<String, Error>) -> (r:
    Result<String, Error>)
    ensures
        error::text_outcome(r) == builder_endpoint_text(
            name@,
            *builder,
            error::text_outcome(file),
        ),
{
    let id: String = match (&builder.endpoint_id, &builder.endpoint_id_file) {
        (Some(_), Some(_)) => {
            return Err(
                Error::new(
                    concat3(
                        "builder ",
                        name,
                        " must set only one of endpoint_id or endpoint_id_file",
                    ),
                ),
            );
        },
        (Some(id), None) => id.clone(),
        (None, Some(path)) => match file {
            Ok(content) => trim_text(content.as_str()),
            Err(why) => {
                return Err(
                    why.context(
                        concat4("read endpoint_id_file for builder ", name, ": ", path.as_str()),
                    ),
                );
            },
        },
        (None, None) => {
            return Err(
                Error::new(
                    concat3("builder ", name, " must set endpoint_id or endpoint_id_file"),
                ),
            );
        },
    };
    if chars_of(id.as_str()).len() == 0 {
        return Err(Error::new(concat3("endpoint id for builder ", name, " is empty")));
    }
    Ok(id)
}

/// How a client gets to build on a builder, by what was read of its endpoint
/// and of its relay URL, where one is written.
pub fn auth_of(
    name: &str,
    id: Result<EndpointId, String>,
    relay_url: Option<Result<String, String>>,
) -> (r: Result<BuildAuth, Error>)
    ensures
        match r {
            Ok(auth) => auth_with(name@, endpoint::read_id(id), relay_view(relay_url)) == Ok::<
                BuildAuthView,
                Seq<Seq<char>>,
            >(auth@),
            Err(e) => auth_with(name@, endpoint::read_id(id), relay_view(relay_url)) == Err::<
                BuildAuthView,
                Seq<Seq<char>>,
            >(e@),
        },
{
    let server_id: EndpointId = match id {
        Ok(id) => id,
        Err(why) => {
            return Err(Error::caused(concat2("parse endpoint id for builder ", name), why));
        },
    };
    match relay_url {
        None => Ok(BuildAuth::TrustedClient { server_id, relay_url: None }),
        Some(Err(why)) => Err(
            Error::caused(concat2("parse relay_url for builder ", name), why),
        ),
        Some(Ok(url)) => Ok(BuildAuth::TrustedClient { server_id, relay_url: Some(url) }),
    }
}

/// Finds a builder by its name.
pub fn builder_auth(name: &str, config: &BuildersConfig, file: Result<String, Error>) -> (r:
    Result<BuildAuth, Error>)
    ensures
        match r {
            Ok(auth) => named_auth(
                name@,
                config.builders@,
                config.builders.keys(),
                error::text_outcome(file),
            ) == Ok::<BuildAuthView, Seq<Seq<char>>>(auth@),
            Err(e) => named_auth(
                name@,
                config.builders@,
                config.builders.keys(),
                error::text_outcome(file),
            ) == Err::<BuildAuthView, Seq<Seq<char>>>(e@),
        },
{
    let builder: &SavedBuilder = match config.builders.get(name) {
        Some(builder) => builder,
        None => {
            let known: String = join_strings(config.builders.key_list().as_slice(), ", ");
            if chars_of(known.as_str()).len() == 0 {
                return Err(
                    Error::new(
                        concat3(
                            "builder '",
                            name,
                            "' was not found; no builders are configured",
                        ),
                    ),
                );
            }
            return Err(
                Error::new(
                    concat4(
                        "builder '",
                        name,
                        "' was not found; configured builders: ",
                        known.as_str(),
                    ),
                ),
            );
        },
    };
    let id: String = match endpoint_id_text(name, builder, file) {
        Ok(id) => id,
        Err(e) => {
            return Err(e);
        },
    };
    let relay_url: Option<Result<String, String>> = match &builder.relay_url {
        None => None,
        Some(written) => Some(parse_relay_url(written.as_str())),
    };
    auth_of(name, EndpointId::parse(id.as_str()), relay_url)
}

// ---------------------------------------------------------------------------
// Laws
// ---------------------------------------------------------------------------

/// What a user configures for a name comes in the place of what the system
/// has for it, and other names stay.
pub proof fn law_user_builders_override_system_builders(
    system: Map<Seq<char>, SavedBuilder>,
    user: Map<Seq<char>, SavedBuilder>,
    paths: Seq<Seq<char>>,
    name: Seq<char>,
)
    ensures
        configured(
            paths,
            seq![
                ReadConfigView::Loaded { builders: system },
                ReadConfigView::Loaded { builders: user },
            ],
            false,
        ) matches Ok(builders) && {
            &&& user.contains_key(name) ==> builders.contains_key(name) && builders[name]
                == user[name]
            &&& !user.contains_key(name) ==> builders.contains_key(name) == system.contains_key(
                name,
            )
            &&& !user.contains_key(name) && system.contains_key(name) ==> builders[name]
                == system[name]
        },
{
    let first = ReadConfigView::Loaded { builders: system };
    let second = ReadConfigView::Loaded { builders: user };
    let reads = seq![first, second];
    assert(reads.drop_last() =~= seq![first]);
    assert(seq![first].drop_last() =~= Seq::<ReadConfigView>::empty());
    reveal_with_fuel(collected, 3);
}

/// A configuration that the environment names is the only one that is read.
/// Otherwise the system's is read first, and then the user's.
pub proof fn law_where_builders_are_configured(
    path: Seq<char>,
    config_home: Option<Seq<char>>,
    home: Option<Seq<char>>,
)
    ensures
        config_files(Some(path), config_home, home) == seq![path],
        config_files(None, None, None) == seq!["/etc/drv-thru/builders.json"@],
        config_home is Some ==> config_files(None, config_home, home) == seq![
            "/etc/drv-thru/builders.json"@,
            paths::joined(config_home->0, "drv-thru/builders.json"@),
        ],
        config_home is None && home is Some ==> config_files(None, config_home, home) == seq![
            "/etc/drv-thru/builders.json"@,
            paths::joined(home->0, ".config/drv-thru/builders.json"@),
        ],
        BUILDERS_CONFIG_ENV@ == "DRV_THRU_BUILDERS_CONFIG"@,
{
}

/// A file that cannot be read counts as a failure. One that is not there does
/// only where the environment names it.
pub proof fn law_missing_files_are_skipped(
    reads: Seq<ReadConfigView>,
    error: Seq<Seq<char>>,
    builders: Map<Seq<char>, SavedBuilder>,
    any: bool,
    from_env: bool,
)
    requires
        collected(reads, from_env) == Ok::<(Map<Seq<char>, SavedBuilder>, bool), Seq<Seq<char>>>(
            (builders, any),
        ),
    ensures
        collected(reads.push(ReadConfigView::Missing { error }), from_env) == (if from_env {
            Err(error)
        } else {
            Ok::<(Map<Seq<char>, SavedBuilder>, bool), Seq<Seq<char>>>((builders, any))
        }),
        collected(reads.push(ReadConfigView::Failed { error }), from_env) == Err::<
            (Map<Seq<char>, SavedBuilder>, bool),
            Seq<Seq<char>>,
        >(error),
{
    let missing = reads.push(ReadConfigView::Missing { error });
    let failed = reads.push(ReadConfigView::Failed { error });
    assert(missing.drop_last() =~= reads);
    assert(failed.drop_last() =~= reads);
    assert(missing.last() == ReadConfigView::Missing { error });
    assert(failed.last() == ReadConfigView::Failed { error });
}

/// The builders of a file that is read are known, in the place of those of the
/// same name before.
pub proof fn law_later_files_count_more(
    reads: Seq<ReadConfigView>,
    builders: Map<Seq<char>, SavedBuilder>,
    from_env: bool,
    name: Seq<char>,
)
    requires
        collected(reads, from_env) is Ok,
    ensures
        match collected(reads.push(ReadConfigView::Loaded { builders }), from_env) {
            Ok((known, any)) => {
                let earlier = collected(reads, from_env)->Ok_0.0;
                &&& any
                &&& builders.contains_key(name) ==> known.contains_key(name) && known[name]
                    == builders[name]
                &&& !builders.contains_key(name) ==> known.contains_key(name)
                    == earlier.contains_key(name)
                &&& !builders.contains_key(name) && earlier.contains_key(name) ==> known[name]
                    == earlier[name]
            },
            Err(_) => false,
        },
{
    let longer = reads.push(ReadConfigView::Loaded { builders });
    assert(longer.drop_last() =~= reads);
    assert(longer.last() == ReadConfigView::Loaded { builders });
}

/// Where no file is there the user is told where one could be.
pub proof fn law_users_without_builders_are_told(
    paths: Seq<Seq<char>>,
    reads: Seq<ReadConfigView>,
    from_env: bool,
)
    ensures
        match collected(reads, from_env) {
            Ok((builders, true)) => configured(paths, reads, from_env) == Ok::<
                Map<Seq<char>, SavedBuilder>,
                Seq<Seq<char>>,
            >(builders),
            Ok((_, false)) => configured(paths, reads, from_env) == Err::<
                Map<Seq<char>, SavedBuilder>,
                Seq<Seq<char>>,
            >(
                seq!["builder config not found; checked "@ + text::join(paths, ", "@)
                    + "; configure services.drv-thru.client.builders.<name>, create ~/.config/drv-thru/builders.json, or pass --server"@],
            ),
            Err(e) => configured(paths, reads, from_env) == Err::<
                Map<Seq<char>, SavedBuilder>,
                Seq<Seq<char>>,
            >(e),
        },
{
}

/// A builder's endpoint is the one that its configuration writes, or the content
/// of the file that it names, without the space around it. It has to be one of
/// the two, and not empty.
pub proof fn law_endpoints_of_builders(
    name: Seq<char>,
    builder: SavedBuilder,
    file: Result<Seq<char>, Seq<Seq<char>>>,
)
    ensures
        builder.endpoint_id is Some && builder.endpoint_id_file is None
            && builder.endpoint_id->0@.len() > 0 ==> builder_endpoint_text(name, builder, file)
            == Ok::<Seq<char>, Seq<Seq<char>>>(builder.endpoint_id->0@),
        builder.endpoint_id is None && builder.endpoint_id_file is Some ==> match file {
            Ok(content) => if text::trim(content).len() > 0 {
                builder_endpoint_text(name, builder, file) == Ok::<Seq<char>, Seq<Seq<char>>>(
                    text::trim(content),
                )
            } else {
                builder_endpoint_text(name, builder, file) == Err::<Seq<char>, Seq<Seq<char>>>(
                    seq!["endpoint id for builder "@ + name + " is empty"@],
                )
            },
            Err(why) => builder_endpoint_text(name, builder, file) == Err::<
                Seq<char>,
                Seq<Seq<char>>,
            >(
                seq!["read endpoint_id_file for builder "@ + name + ": "@
                    + builder.endpoint_id_file->0@] + why,
            ),
        },
        builder.endpoint_id is Some && builder.endpoint_id_file is None
            && builder.endpoint_id->0@.len() == 0 ==> builder_endpoint_text(name, builder, file)
            == Err::<Seq<char>, Seq<Seq<char>>>(
            seq!["endpoint id for builder "@ + name + " is empty"@],
        ),
        builder.endpoint_id is Some && builder.endpoint_id_file is Some ==> builder_endpoint_text(
            name,
            builder,
            file,
        ) == Err::<Seq<char>, Seq<Seq<char>>>(
            seq!["builder "@ + name + " must set only one of endpoint_id or endpoint_id_file"@],
        ),
        builder.endpoint_id is None && builder.endpoint_id_file is None ==> builder_endpoint_text(
            name,
            builder,
            file,
        ) == Err::<Seq<char>, Seq<Seq<char>>>(
            seq!["builder "@ + name + " must set endpoint_id or endpoint_id_file"@],
        ),
{
}

/// A builder whose endpoint and relay can be read is reached there. A user is
/// told of what cannot be read, and of whom.
pub proof fn law_named_builders_are_reached(
    name: Seq<char>,
    id: Result<Seq<u8>, Seq<char>>,
    relay_url: Option<Result<Seq<char>, Seq<char>>>,
)
    ensures
        match auth_with(name, id, relay_url) {
            Ok(auth) => {
                &&& auth is TrustedClient
                &&& Ok::<Seq<u8>, Seq<char>>(auth->server_id) == id
                &&& relay_url is None ==> auth->relay_url is None
                &&& relay_url is Some ==> relay_url->0 is Ok && auth->relay_url == Some(
                    relay_url->0->Ok_0,
                )
            },
            Err(e) => {
                &&& e.len() == 2
                &&& id is Err ==> e[0] == "parse endpoint id for builder "@ + name && e[1]
                    == id->Err_0
                &&& id is Ok ==> relay_url is Some && relay_url->0 is Err && e[0]
                    == "parse relay_url for builder "@ + name && e[1] == relay_url->0->Err_0
            },
        },
{
}

/// A builder that nobody configured is not found, and the user is told which
/// are.
pub proof fn law_unknown_builders_are_not_found(
    name: Seq<char>,
    builders: Map<Seq<char>, SavedBuilder>,
    known: Seq<Seq<char>>,
    file: Result<Seq<char>, Seq<Seq<char>>>,
)
    requires
        !builders.contains_key(name),
    ensures
        known.len() == 0 ==> named_auth(name, builders, known, file) == Err::<
            BuildAuthView,
            Seq<Seq<char>>,
        >(seq!["builder '"@ + name + "' was not found; no builders are configured"@]),
        text::join(known, ", "@).len() > 0 ==> named_auth(name, builders, known, file) == Err::<
            BuildAuthView,
            Seq<Seq<char>>,
        >(
            seq!["builder '"@ + name + "' was not found; configured builders: "@ + text::join(
                known,
                ", "@,
            )],
        ),
{
}

} // verus!
