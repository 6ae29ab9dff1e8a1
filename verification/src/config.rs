//! Where things live, so users never have to say.
//!
//! Defaults follow the XDG layout and are created on demand:
//!
//! | what | default |
//! |---|---|
//! | identity | `$XDG_DATA_HOME/iroh-drop/identity.key` |
//! | blob store | `$XDG_DATA_HOME/iroh-drop/blobs` |
//! | downloads | `$XDG_DATA_HOME/iroh-drop/received` |
//! | config | `$XDG_CONFIG_HOME/iroh-drop/config.toml` |
//!
//! A stable identity and a persistent store are what make a peer recognizable across
//! restarts and let it keep serving what it received.

use crate::error::{SdkError, SdkErrorView};
use crate::json::{
    field, has_quote_run, names_rise, object, parse_toml, quote_run, toml_document, toml_in,
    toml_text, write_toml, Json, JsonView,
};
use crate::order::{text_before, text_before_irreflexive, text_before_transitive};
use crate::path::{
    a_name_below_adds_a_part, below, join_path, parent, parent_text, parts, PartView,
};
use crate::text::{opt_text, texts};
use vstd::prelude::*;

verus! {

/// What the environment says about where things live.
#[derive(Debug)]
pub struct Environment {
    /// `HOME`.
    pub home: Option<String>,
    /// `XDG_DATA_HOME`.
    pub data_home: Option<String>,
    /// `XDG_CONFIG_HOME`.
    pub config_home: Option<String>,
    /// `XDG_RUNTIME_DIR`, where that is a directory.
    pub runtime_dir: Option<String>,
}

impl Environment {
    /// The user's home, or the current directory.
    pub open spec fn home_text(&self) -> Seq<char> {
        match self.home {
            Some(home) => home@,
            None => "."@,
        }
    }

    /// Where this application keeps its data.
    pub open spec fn data_text(&self) -> Seq<char> {
        below(
            match self.data_home {
                Some(dir) => dir@,
                None => below(below(self.home_text(), ".local"@), "share"@),
            },
            "iroh-drop"@,
        )
    }

    /// Where this application keeps its settings.
    pub open spec fn config_text(&self) -> Seq<char> {
        below(
            match self.config_home {
                Some(dir) => dir@,
                None => below(self.home_text(), ".config"@),
            },
            "iroh-drop"@,
        )
    }

    /// The user's home, or the current directory.
    pub fn home_dir(&self) -> (r: String)
        ensures
            r@ == self.home_text(),
    {
        match &self.home {
            Some(home) => home.clone(),
            None => ".".to_owned(),
        }
    }

    /// Where this application keeps its data.
    pub fn data_dir(&self) -> (r: String)
        ensures
            r@ == self.data_text(),
    {
        let base = match &self.data_home {
            Some(dir) => dir.clone(),
            None => {
                let local = join_path(self.home_dir().as_str(), ".local");
                join_path(local.as_str(), "share")
            },
        };
        join_path(base.as_str(), "iroh-drop")
    }

    /// Where this application keeps its settings.
    pub fn config_dir(&self) -> (r: String)
        ensures
            r@ == self.config_text(),
    {
        let base = match &self.config_home {
            Some(dir) => dir.clone(),
            None => join_path(self.home_dir().as_str(), ".config"),
        };
        join_path(base.as_str(), "iroh-drop")
    }
}

/// When to fetch without being asked, and how much.
#[derive(Debug)]
pub struct DropPolicy {
    /// Fetch offers automatically.
    pub auto_fetch: bool,
    /// Largest blob to fetch automatically, in bytes.
    pub max_blob_size: u64,
    /// Total automatic download budget, in bytes.
    pub max_total_auto_fetch_bytes: u64,
    /// Where fetched files go.
    pub output_directory: String,
}

/// How to bring up an endpoint and its store.
#[derive(Debug)]
pub struct StackOptions {
    /// Persistent blob store; none means memory.
    pub store_path: Option<String>,
    /// No relays, no lookups outside the local network.
    pub offline: bool,
    /// Persistent identity; none means a fresh one.
    pub identity_path: Option<String>,
    /// A secret key to use in place of a file.
    pub secret_key: Option<String>,
    /// A relay of one's own.
    pub relay_url: Option<String>,
    /// Discover addresses on the local network.
    pub mdns: bool,
}

/// On-disk application defaults.
#[derive(Debug)]
pub struct Config {
    /// Persistent endpoint identity file.
    pub identity_path: String,
    /// Persistent blob store directory.
    pub store_path: String,
    /// Where received files are written.
    pub download_dir: String,
    /// Fetch offers automatically instead of waiting for the user.
    pub auto_fetch: bool,
    /// Largest blob to accept automatically, in bytes.
    pub max_auto_blob_size: u64,
    /// Total automatic download budget per session, in bytes.
    pub max_auto_total_bytes: u64,
    /// Base URL for web links in share responses. Set to a web-client host and share
    /// results carry a link that a browser can open directly.
    pub link_base: Option<String>,
}

/// What came of reading a file.
#[derive(Debug)]
pub enum FileRead {
    /// It holds this text.
    Text(String),
    /// There is no such file.
    Missing,
    /// It could not be read, for this reason.
    Failed(String),
}

/// A file to write.
#[derive(Debug)]
pub struct TextFile {
    /// Where it goes.
    pub path: String,
    /// The directory to create first, if the path stands in one.
    pub dir: Option<String>,
    /// What it holds.
    pub text: String,
}

/// The model of a [`Config`].
#[verifier::ext_equal]
pub struct ConfigView {
    /// Persistent endpoint identity file.
    pub identity_path: Seq<char>,
    /// Persistent blob store directory.
    pub store_path: Seq<char>,
    /// Where received files are written.
    pub download_dir: Seq<char>,
    /// Whether to fetch offers automatically.
    pub auto_fetch: bool,
    /// Largest blob to accept automatically.
    pub max_auto_blob_size: u64,
    /// Total automatic download budget.
    pub max_auto_total_bytes: u64,
    /// Base URL for web links.
    pub link_base: Option<Seq<char>>,
}

impl View for Config {
    type V = ConfigView;

    open spec fn view(&self) -> ConfigView {
        ConfigView {
            identity_path: self.identity_path@,
            store_path: self.store_path@,
            download_dir: self.download_dir@,
            auto_fetch: self.auto_fetch,
            max_auto_blob_size: self.max_auto_blob_size,
            max_auto_total_bytes: self.max_auto_total_bytes,
            link_base: opt_text(self.link_base),
        }
    }
}

/// The defaults, where `limits` is the protocol's own policy.
pub open spec fn default_view(env: Environment, limits: DropPolicy) -> ConfigView {
    ConfigView {
        identity_path: below(env.data_text(), "identity.key"@),
        store_path: below(env.data_text(), "blobs"@),
        download_dir: below(env.data_text(), "received"@),
        auto_fetch: false,
        max_auto_blob_size: limits.max_blob_size,
        max_auto_total_bytes: limits.max_total_auto_fetch_bytes,
        link_base: None,
    }
}

/// A config, as a structured value; a base for links that is not there is left out.
pub open spec fn config_json(config: ConfigView) -> JsonView {
    let first = object().with("auto_fetch"@, JsonView::Bool(config.auto_fetch)).with(
        "download_dir"@,
        JsonView::Text(config.download_dir),
    ).with("identity_path"@, JsonView::Text(config.identity_path));
    let linked = match config.link_base {
        Some(base) => first.with("link_base"@, JsonView::Text(base)),
        None => first,
    };
    linked.with("max_auto_blob_size"@, JsonView::Unsigned(config.max_auto_blob_size)).with(
        "max_auto_total_bytes"@,
        JsonView::Unsigned(config.max_auto_total_bytes),
    ).with("store_path"@, JsonView::Text(config.store_path))
}

/// Why a key of a config cannot be read.
pub open spec fn invalid_key(key: Seq<char>) -> Seq<char> {
    "invalid `"@ + key + "`"@
}

/// The text under a key, or the usual one where it is missing.
pub open spec fn text_in(v: JsonView, key: Seq<char>, usual: Seq<char>) -> Result<
    Seq<char>,
    Seq<char>,
> {
    match v.get(key) {
        None => Ok(usual),
        Some(JsonView::Text(text)) => Ok(text),
        Some(_) => Err(invalid_key(key)),
    }
}

/// The count under a key, or the usual one where it is missing.
pub open spec fn count_in(v: JsonView, key: Seq<char>, usual: u64) -> Result<u64, Seq<char>> {
    match v.get(key) {
        None => Ok(usual),
        Some(JsonView::Unsigned(count)) => Ok(count),
        Some(_) => Err(invalid_key(key)),
    }
}

/// The truth value under a key, or the usual one where it is missing.
pub open spec fn flag_in(v: JsonView, key: Seq<char>, usual: bool) -> Result<bool, Seq<char>> {
    match v.get(key) {
        None => Ok(usual),
        Some(JsonView::Bool(flag)) => Ok(flag),
        Some(_) => Err(invalid_key(key)),
    }
}

/// The text under a key that need not be there, or the usual one where it is missing.
pub open spec fn option_in(v: JsonView, key: Seq<char>, usual: Option<Seq<char>>) -> Result<
    Option<Seq<char>>,
    Seq<char>,
> {
    match v.get(key) {
        None => Ok(usual),
        Some(JsonView::Text(text)) => Ok(Some(text)),
        Some(_) => Err(invalid_key(key)),
    }
}

/// The config that a structured value is, or the first thing wrong with it. What is missing is as
/// usual, and other entries are ignored.
pub open spec fn config_in(v: JsonView, usual: ConfigView) -> Result<ConfigView, Seq<char>> {
    let identity_path = text_in(v, "identity_path"@, usual.identity_path);
    let store_path = text_in(v, "store_path"@, usual.store_path);
    let download_dir = text_in(v, "download_dir"@, usual.download_dir);
    let auto_fetch = flag_in(v, "auto_fetch"@, usual.auto_fetch);
    let max_auto_blob_size = count_in(v, "max_auto_blob_size"@, usual.max_auto_blob_size);
    let max_auto_total_bytes = count_in(v, "max_auto_total_bytes"@, usual.max_auto_total_bytes);
    let link_base = option_in(v, "link_base"@, usual.link_base);
    if identity_path is Err {
        Err(identity_path->Err_0)
    } else if store_path is Err {
        Err(store_path->Err_0)
    } else if download_dir is Err {
        Err(download_dir->Err_0)
    } else if auto_fetch is Err {
        Err(auto_fetch->Err_0)
    } else if max_auto_blob_size is Err {
        Err(max_auto_blob_size->Err_0)
    } else if max_auto_total_bytes is Err {
        Err(max_auto_total_bytes->Err_0)
    } else if link_base is Err {
        Err(link_base->Err_0)
    } else {
        Ok(
            ConfigView {
                identity_path: identity_path->Ok_0,
                store_path: store_path->Ok_0,
                download_dir: download_dir->Ok_0,
                auto_fetch: auto_fetch->Ok_0,
                max_auto_blob_size: max_auto_blob_size->Ok_0,
                max_auto_total_bytes: max_auto_total_bytes->Ok_0,
                link_base: link_base->Ok_0,
            },
        )
    }
}

/// The config that a file with this text holds, or why it holds none.
pub open spec fn config_of_text(text: Seq<char>, usual: ConfigView) -> Result<
    ConfigView,
    Seq<char>,
> {
    match toml_in(text) {
        Ok(v) => config_in(v, usual),
        Err(why) => Err(why),
    }
}

/// Whether this is what comes of reading the config at `path`: the usual one where there is no
/// such file, and an error where it cannot be read.
pub open spec fn loads(
    path: Seq<char>,
    usual: ConfigView,
    read: FileRead,
    r: Result<Config, SdkError>,
) -> bool {
    match read {
        FileRead::Text(text) => match config_of_text(text@, usual) {
            Ok(config) => r is Ok && r->Ok_0@ == config,
            Err(why) => r is Err && r->Err_0@ == SdkErrorView::Config(path + ": "@ + why),
        },
        FileRead::Missing => r is Ok && r->Ok_0@ == usual,
        FileRead::Failed(why) => r is Err && r->Err_0@ == SdkErrorView::Config(
            path + ": "@ + why@,
        ),
    }
}

/// Whether the texts in a config can be written as TOML.
pub open spec fn config_texts_fit(config: ConfigView) -> bool {
    &&& !quote_run(config.identity_path)
    &&& !quote_run(config.store_path)
    &&& !quote_run(config.download_dir)
    &&& config.link_base is Some ==> !quote_run(config.link_base->0)
}

fn invalid(key: &str) -> (r: String)
    ensures
        r@ == invalid_key(key@),
{
    "invalid `".to_owned().concat(key).concat("`")
}

fn text_or(v: &Json, key: &str, usual: String) -> (r: Result<String, String>)
    ensures
        match r {
            Ok(text) => text_in(v@, key@, usual@) == Ok::<Seq<char>, Seq<char>>(text@),
            Err(why) => text_in(v@, key@, usual@) == Err::<Seq<char>, Seq<char>>(why@),
        },
{
    match v.get(key) {
        None => Ok(usual),
        Some(Json::Text(text)) => Ok(text.clone()),
        Some(_) => Err(invalid(key)),
    }
}

fn count_or(v: &Json, key: &str, usual: u64) -> (r: Result<u64, String>)
    ensures
        match r {
            Ok(count) => count_in(v@, key@, usual) == Ok::<u64, Seq<char>>(count),
            Err(why) => count_in(v@, key@, usual) == Err::<u64, Seq<char>>(why@),
        },
{
    match v.get(key) {
        None => Ok(usual),
        Some(Json::Unsigned(count)) => Ok(*count),
        Some(_) => Err(invalid(key)),
    }
}

proof fn lemma_before_behind(p: Seq<char>, a: Seq<char>, b: Seq<char>)
    ensures
        text_before(p + a, p + b) == text_before(a, b),
    decreases p.len(),
{
    if p.len() == 0 {
        assert(p + a =~= a && p + b =~= b);
    } else {
        lemma_before_behind(p.drop_first(), a, b);
        assert((p + a).drop_first() =~= p.drop_first() + a);
        assert((p + b).drop_first() =~= p.drop_first() + b);
        assert((p + a)[0] == p[0] && (p + b)[0] == p[0]);
    }
}

proof fn lemma_config_keys()
    ensures
        text_before("auto_fetch"@, "download_dir"@),
        text_before("download_dir"@, "identity_path"@),
        text_before("identity_path"@, "link_base"@),
        text_before("link_base"@, "max_auto_blob_size"@),
        text_before("max_auto_blob_size"@, "max_auto_total_bytes"@),
        text_before("max_auto_total_bytes"@, "store_path"@),
{
    reveal_strlit("auto_fetch");
    reveal_strlit("download_dir");
    reveal_strlit("identity_path");
    reveal_strlit("link_base");
    reveal_strlit("max_auto_blob_size");
    reveal_strlit("max_auto_total_bytes");
    reveal_strlit("store_path");
    let a = "max_auto_blob_size"@;
    let b = "max_auto_total_bytes"@;
    let p = a.take(9);
    assert(a =~= p + a.skip(9));
    assert(b =~= p + b.skip(9));
    lemma_before_behind(p, a.skip(9), b.skip(9));
    assert(a.skip(9)[0] == 'b' && b.skip(9)[0] == 't');
}

proof fn lemma_rising(fields: Seq<(Seq<char>, JsonView)>)
    requires
        forall|i: int|
            0 < i < fields.len() ==> text_before(fields[i - 1].0, (#[trigger] fields[i]).0),
    ensures
        names_rise(fields),
    decreases fields.len(),
{
    if fields.len() > 0 {
        let front = fields.drop_last();
        assert forall|i: int| 0 < i < front.len() implies text_before(
            front[i - 1].0,
            (#[trigger] front[i]).0,
        ) by {
            assert(front[i] == fields[i] && front[i - 1] == fields[i - 1]);
        }
        lemma_rising(front);
        assert forall|i: int, j: int| 0 <= i < j < fields.len() implies text_before(
            #[trigger] fields[i].0,
            #[trigger] fields[j].0,
        ) by {
            if j < front.len() {
                assert(front[i] == fields[i] && front[j] == fields[j]);
            } else {
                assert(text_before(fields[j - 1].0, fields[j].0));
                if i < j - 1 {
                    assert(front[i] == fields[i] && front[j - 1] == fields[j - 1]);
                    text_before_transitive(fields[i].0, fields[j - 1].0, fields[j].0);
                }
            }
        }
    }
}

spec fn config_fields(config: ConfigView) -> Seq<(Seq<char>, JsonView)> {
    let first = seq![
        ("auto_fetch"@, JsonView::Bool(config.auto_fetch)),
        ("download_dir"@, JsonView::Text(config.download_dir)),
        ("identity_path"@, JsonView::Text(config.identity_path)),
    ];
    let last = seq![
        ("max_auto_blob_size"@, JsonView::Unsigned(config.max_auto_blob_size)),
        ("max_auto_total_bytes"@, JsonView::Unsigned(config.max_auto_total_bytes)),
        ("store_path"@, JsonView::Text(config.store_path)),
    ];
    match config.link_base {
        Some(base) => first + seq![("link_base"@, JsonView::Text(base))] + last,
        None => first + last,
    }
}

proof fn lemma_config_fields(config: ConfigView)
    ensures
        config_json(config) == JsonView::Object(config_fields(config)),
        names_rise(config_fields(config)),
{
    let fields = config_fields(config);
    assert(config_json(config)->Object_0 =~= fields);
    lemma_config_keys();
    text_before_transitive("identity_path"@, "link_base"@, "max_auto_blob_size"@);
    lemma_rising(fields);
}

proof fn lemma_config_document(config: ConfigView)
    requires
        config_texts_fit(config),
        config.max_auto_blob_size <= i64::MAX,
        config.max_auto_total_bytes <= i64::MAX,
    ensures
        toml_document(config_json(config)),
{
    lemma_config_fields(config);
}

proof fn lemma_found(fields: Seq<(Seq<char>, JsonView)>, i: int)
    requires
        names_rise(fields),
        0 <= i < fields.len(),
    ensures
        field(fields, fields[i].0) == Some(fields[i].1),
    decreases i,
{
    if i > 0 {
        let rest = fields.drop_first();
        assert forall|a: int, b: int| 0 <= a < b < rest.len() implies text_before(
            #[trigger] rest[a].0,
            #[trigger] rest[b].0,
        ) by {
            assert(rest[a] == fields[a + 1] && rest[b] == fields[b + 1]);
        }
        lemma_found(rest, i - 1);
        assert(rest[i - 1] == fields[i]);
        assert(text_before(fields[0].0, fields[i].0));
        text_before_irreflexive(fields[0].0);
    }
}

/// A config reads back as it was, where no base for links is the usual.
pub proof fn a_config_reads_back(config: ConfigView, usual: ConfigView)
    requires
        usual.link_base is None,
    ensures
        config_in(config_json(config), usual) == Ok::<ConfigView, Seq<char>>(config),
{
    lemma_config_fields(config);
    let fields = config_fields(config);
    lemma_found(fields, 0);
    lemma_found(fields, 1);
    lemma_found(fields, 2);
    let n = fields.len() as int;
    lemma_found(fields, n - 3);
    lemma_found(fields, n - 2);
    lemma_found(fields, n - 1);
    match config.link_base {
        Some(base) => {
            lemma_found(fields, 3);
        },
        None => {
            reveal_with_fuel(field, 7);
            reveal_strlit("auto_fetch");
            reveal_strlit("download_dir");
            reveal_strlit("identity_path");
            reveal_strlit("link_base");
            reveal_strlit("max_auto_blob_size");
            reveal_strlit("max_auto_total_bytes");
            reveal_strlit("store_path");
            let key = "link_base"@;
            assert(key.len() == 9);
            assert(field(fields, key) is None);
        },
    }
}

/// A config that was saved and is loaded from what was written is the same.
pub proof fn a_saved_config_is_loaded_again(
    before: Config,
    path: Seq<char>,
    file: TextFile,
    env: Environment,
    limits: DropPolicy,
    after: Result<Config, SdkError>,
)
    requires
        before.saves(path, Ok(file)),
        loads(path, default_view(env, limits), FileRead::Text(file.text), after),
    ensures
        after is Ok,
        after->Ok_0@ == before@,
{
    a_config_reads_back(before@, default_view(env, limits));
}

impl Config {
    /// Whether this is the default, where `limits` is the protocol's own policy.
    pub open spec fn is_default(&self, env: Environment, limits: DropPolicy) -> bool {
        self@ == default_view(env, limits)
    }

    /// The defaults, where `limits` is the protocol's own policy.
    pub fn default_for(env: &Environment, limits: &DropPolicy) -> (r: Config)
        ensures
            r.is_default(*env, *limits),
    {
        let data = env.data_dir();
        Config {
            identity_path: join_path(data.as_str(), "identity.key"),
            store_path: join_path(data.as_str(), "blobs"),
            download_dir: join_path(data.as_str(), "received"),
            auto_fetch: false,
            max_auto_blob_size: limits.max_blob_size,
            max_auto_total_bytes: limits.max_total_auto_fetch_bytes,
            link_base: None,
        }
    }

    /// The config from its default location, falling back to defaults when absent.
    pub fn load(env: &Environment, limits: &DropPolicy, read: &FileRead) -> (r: Result<
        Config,
        SdkError,
    >)
        ensures
            loads(
                below(env.config_text(), "config.toml"@),
                default_view(*env, *limits),
                *read,
                r,
            ),
    {
        let path = Self::default_path(env);
        Self::load_from(path.as_str(), env, limits, read)
    }

    /// The config from a specific file, falling back to defaults when absent. A key that is
    /// missing has its default too.
    pub fn load_from(path: &str, env: &Environment, limits: &DropPolicy, read: &FileRead) -> (r:
        Result<Config, SdkError>)
        ensures
            loads(path@, default_view(*env, *limits), *read, r),
    {
        let usual = Self::default_for(env, limits);
        let why = match read {
            FileRead::Text(text) => match parse_toml(text.as_str()) {
                Ok(v) => match Self::from_json(&v, usual) {
                    Ok(config) => {
                        return Ok(config);
                    },
                    Err(why) => why,
                },
                Err(why) => why,
            },
            FileRead::Missing => {
                return Ok(usual);
            },
            FileRead::Failed(why) => why.clone(),
        };
        Err(SdkError::Config(path.to_owned().concat(": ").concat(why.as_str())))
    }

    /// The config that a structured value is, or why it is none; `usual` has the defaults.
    pub fn from_json(v: &Json, usual: Config) -> (r: Result<Config, String>)
        ensures
            match r {
                Ok(config) => config_in(v@, usual@) == Ok::<ConfigView, Seq<char>>(config@),
                Err(why) => config_in(v@, usual@) == Err::<ConfigView, Seq<char>>(why@),
            },
    {
        let identity_path = match text_or(v, "identity_path", usual.identity_path) {
            Ok(text) => text,
            Err(why) => {
                return Err(why);
            },
        };
        let store_path = match text_or(v, "store_path", usual.store_path) {
            Ok(text) => text,
            Err(why) => {
                return Err(why);
            },
        };
        let download_dir = match text_or(v, "download_dir", usual.download_dir) {
            Ok(text) => text,
            Err(why) => {
                return Err(why);
            },
        };
        let auto_fetch = match v.get("auto_fetch") {
            None => usual.auto_fetch,
            Some(Json::Bool(flag)) => *flag,
            Some(_) => {
                return Err(invalid("auto_fetch"));
            },
        };
        let max_auto_blob_size: u64 = match count_or(
            v,
            "max_auto_blob_size",
            usual.max_auto_blob_size,
        ) {
            Ok(count) => count,
            Err(why) => {
                return Err(why);
            },
        };
        let max_auto_total_bytes: u64 = match count_or(
            v,
            "max_auto_total_bytes",
            usual.max_auto_total_bytes,
        ) {
            Ok(count) => count,
            Err(why) => {
                return Err(why);
            },
        };
        let link_base = match v.get("link_base") {
            None => usual.link_base,
            Some(Json::Text(base)) => Some(base.clone()),
            Some(_) => {
                return Err(invalid("link_base"));
            },
        };
        Ok(
            Config {
                identity_path,
                store_path,
                download_dir,
                auto_fetch,
                max_auto_blob_size,
                max_auto_total_bytes,
                link_base,
            },
        )
    }

    /// The config as a structured value.
    pub fn to_json(&self) -> (r: Json)
        ensures
            r@ == config_json(self@),
    {
        let first = Json::object().with("auto_fetch", Json::Bool(self.auto_fetch)).with(
            "download_dir",
            Json::text(self.download_dir.as_str()),
        ).with("identity_path", Json::text(self.identity_path.as_str()));
        let linked = match &self.link_base {
            Some(base) => first.with("link_base", Json::text(base.as_str())),
            None => first,
        };
        linked.with("max_auto_blob_size", Json::Unsigned(self.max_auto_blob_size)).with(
            "max_auto_total_bytes",
            Json::Unsigned(self.max_auto_total_bytes),
        ).with("store_path", Json::text(self.store_path.as_str()))
    }

    /// Whether the texts in the config can be written as TOML.
    pub fn writable(&self) -> (r: bool)
        ensures
            r == config_texts_fit(self@),
    {
        let linked = match &self.link_base {
            Some(base) => has_quote_run(base.as_str()),
            None => false,
        };
        !linked && !has_quote_run(self.identity_path.as_str()) && !has_quote_run(
            self.store_path.as_str(),
        ) && !has_quote_run(self.download_dir.as_str())
    }

    /// How to write the config to its default location. It reads back from there as it is. A
    /// size that no TOML integer holds cannot be written.
    pub fn save(&self, env: &Environment) -> (r: Result<TextFile, SdkError>)
        requires
            config_texts_fit(self@),
        ensures
            self.saves(below(env.config_text(), "config.toml"@), r),
    {
        if self.max_auto_blob_size > i64::MAX as u64 || self.max_auto_total_bytes > i64::MAX as u64 {
            return Err(SdkError::Config("out-of-range value for u64 type".to_owned()));
        }
        let v = self.to_json();
        proof {
            lemma_config_document(self@);
        }
        let text = write_toml(&v);
        let path = Self::default_path(env);
        let dir = parent(path.as_str());
        Ok(TextFile { path, dir, text })
    }

    /// Whether this is what comes of saving the config: the file to write, with a text that
    /// reads back as the config, or an error where some size cannot be written.
    pub open spec fn saves(self, path: Seq<char>, r: Result<TextFile, SdkError>) -> bool {
        let fits = self.max_auto_blob_size <= i64::MAX && self.max_auto_total_bytes <= i64::MAX;
        match r {
            Ok(file) => {
                &&& fits
                &&& file.path@ == path
                &&& opt_text(file.dir) == parent_text(path)
                &&& file.text@ == toml_text(config_json(self@))
                &&& toml_in(file.text@) == Ok::<JsonView, Seq<char>>(config_json(self@))
            },
            Err(e) => !fits && e@ == SdkErrorView::Config("out-of-range value for u64 type"@),
        }
    }

    /// The default config file path.
    pub fn default_path(env: &Environment) -> (r: String)
        ensures
            r@ == below(env.config_text(), "config.toml"@),
    {
        join_path(env.config_dir().as_str(), "config.toml")
    }

    /// Stack options for a persistent peer (stable identity, durable store).
    ///
    /// `mdns` turns on local-network address discovery, which is what makes short tickets
    /// and `nearby` work without relays.
    pub fn stack_options(&self, offline: bool, mdns: bool) -> (r: StackOptions)
        ensures
            opt_text(r.store_path) == Some(self.store_path@),
            opt_text(r.identity_path) == Some(self.identity_path@),
            r.offline == offline,
            r.mdns == mdns,
            r.secret_key is None,
            r.relay_url is None,
    {
        StackOptions {
            store_path: Some(self.store_path.clone()),
            offline,
            identity_path: Some(self.identity_path.clone()),
            secret_key: None,
            relay_url: None,
            mdns,
        }
    }

    /// Stack options for a throwaway peer: fresh identity, memory store.
    pub fn ephemeral_stack_options(offline: bool, mdns: bool) -> (r: StackOptions)
        ensures
            r == (StackOptions {
                store_path: None,
                offline,
                identity_path: None,
                secret_key: None,
                relay_url: None,
                mdns,
            }),
    {
        StackOptions {
            store_path: None,
            offline,
            identity_path: None,
            secret_key: None,
            relay_url: None,
            mdns,
        }
    }

    /// The fetch policy these settings describe; what they do not speak of stays as in
    /// `base`.
    pub fn policy(&self, base: DropPolicy) -> (r: DropPolicy)
        ensures
            r == (DropPolicy {
                auto_fetch: self.auto_fetch,
                max_blob_size: self.max_auto_blob_size,
                max_total_auto_fetch_bytes: self.max_auto_total_bytes,
                output_directory: base.output_directory,
            }),
    {
        DropPolicy {
            auto_fetch: self.auto_fetch,
            max_blob_size: self.max_auto_blob_size,
            max_total_auto_fetch_bytes: self.max_auto_total_bytes,
            output_directory: base.output_directory,
        }
    }

    /// The directories that must exist for this config: the store, the downloads, and the
    /// one that the identity file stands in.
    pub fn prepare_dirs(&self) -> (r: Vec<String>)
        ensures
            texts(r@) == match parent_text(self.identity_path@) {
                Some(dir) => seq![self.store_path@, self.download_dir@, dir],
                None => seq![self.store_path@, self.download_dir@],
            },
    {
        let mut dirs: Vec<String> = Vec::new();
        dirs.push(self.store_path.clone());
        dirs.push(self.download_dir.clone());
        match parent(self.identity_path.as_str()) {
            Some(dir) => {
                dirs.push(dir);
                assert(texts(dirs@) =~= seq![self.store_path@, self.download_dir@, dir@]);
            },
            None => {
                assert(texts(dirs@) =~= seq![self.store_path@, self.download_dir@]);
            },
        }
        dirs
    }
}

/// The identity, the store and the downloads of a default config all stand directly in the
/// application's data directory.
pub proof fn defaults_stand_in_one_directory(config: Config, env: Environment, limits: DropPolicy)
    requires
        config.is_default(env, limits),
    ensures
        parts(config.identity_path@) == parts(env.data_text()).push(
            PartView::Name("identity.key"@),
        ),
        parts(config.store_path@) == parts(env.data_text()).push(PartView::Name("blobs"@)),
        parts(config.download_dir@) == parts(env.data_text()).push(PartView::Name("received"@)),
        !config.auto_fetch,
{
    reveal_strlit("identity.key");
    reveal_strlit("blobs");
    reveal_strlit("received");
    reveal_strlit(".");
    reveal_strlit("..");
    a_name_below_adds_a_part(env.data_text(), "identity.key"@);
    a_name_below_adds_a_part(env.data_text(), "blobs"@);
    a_name_below_adds_a_part(env.data_text(), "received"@);
}

} // verus!
