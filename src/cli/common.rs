use vstd::prelude::*;

verus! {

/// Where environments live, relative to the home directory.
pub const ARAKI_ENVS_DIR: &'static str = ".araki/envs";

/// Where shims live, relative to the home directory.
pub const ARAKI_BIN_DIR: &'static str = ".araki/bin";

/// The hidden version-history directory inside a lockspec directory.
pub const ARAKI_GIT_DIR_NAME: &'static str = ".araki-git";

#[verifier::external_type_specification]
#[verifier::external_body]
#[verifier::reject_recursive_types(K)]
#[verifier::reject_recursive_types(V)]
pub struct ExTomlMap<K, V>(toml::map::Map<K, V>);

#[verifier::external_type_specification]
#[verifier::external_body]
pub struct ExTomlValue(toml::Value);

#[verifier::external_type_specification]
#[verifier::external_body]
pub struct ExTomlDeError(toml::de::Error);

/// The keys of a TOML table.
pub uninterp spec fn table_keys(t: toml::map::Map<String, toml::Value>) -> Set<Seq<char>>;

/// The string that a TOML table holds at the key path `p` (through nested
/// tables), if there is one.
pub uninterp spec fn table_text(t: toml::map::Map<String, toml::Value>, p: Seq<Seq<char>>) -> Option<Seq<char>>;

/// The string that a TOML value holds at the key path `p`: the value itself
/// for the empty path, a nested table's entry otherwise.
pub uninterp spec fn value_text(v: toml::Value, p: Seq<Seq<char>>) -> Option<Seq<char>>;

/// The top-level keys of the TOML document `s`, or `None` when `s` is not valid TOML.
pub uninterp spec fn parsed_keys(s: Seq<char>) -> Option<Set<Seq<char>>>;

/// The string that the TOML document `s` holds at the key path `p`, if any.
pub uninterp spec fn parsed_text(s: Seq<char>, p: Seq<Seq<char>>) -> Option<Seq<char>>;

/// Relies on `FromStr for toml::Table`: parses a TOML document into its top-level table.
#[verifier::external_body]
fn parse_table(s: &str) -> (r: Result<toml::map::Map<String, toml::Value>, toml::de::Error>)
    ensures
        r is Ok <==> parsed_keys(s@) is Some,
        r matches Ok(t) ==> table_keys(t) == parsed_keys(s@).unwrap(),
        r matches Ok(t) ==> forall|p: Seq<Seq<char>>| #[trigger] table_text(t, p) == parsed_text(s@, p),
{
    s.parse::<toml::Table>()
}

/// Relies on `toml::map::Map::contains_key`.
#[verifier::external_body]
fn table_has(t: &toml::map::Map<String, toml::Value>, key: &str) -> (r: bool)
    ensures
        r == table_keys(*t).contains(key@),
{
    t.contains_key(key)
}

/// Relies on `toml::map::Map::new`: an empty table.
#[verifier::external_body]
fn new_table() -> (r: toml::map::Map<String, toml::Value>)
    ensures
        table_keys(r) == Set::<Seq<char>>::empty(),
        forall|p: Seq<Seq<char>>| #[trigger] table_text(r, p) is None,
{
    toml::map::Map::new()
}

/// Relies on `toml::map::Map::insert`: `key` holds `v` afterwards, the other
/// entries stay.
#[verifier::external_body]
fn table_insert(t: &mut toml::map::Map<String, toml::Value>, key: &str, v: toml::Value)
    ensures
        table_keys(*final(t)) == table_keys(*old(t)).insert(key@),
        forall|p: Seq<Seq<char>>| p.len() > 0 ==> #[trigger] table_text(*final(t), p) == if p[0] == key@ {
            value_text(v, p.drop_first())
        } else {
            table_text(*old(t), p)
        },
{
    t.insert(key.to_string(), v);
}

/// Relies on `From<&str> for toml::Value`: a TOML string.
#[verifier::external_body]
fn text_value(s: &str) -> (r: toml::Value)
    ensures
        value_text(r, Seq::empty()) == Some(s@),
        forall|p: Seq<Seq<char>>| p.len() > 0 ==> #[trigger] value_text(r, p) is None,
{
    toml::Value::from(s)
}

/// Relies on `From<toml::Table> for toml::Value`: a TOML table (not a string).
#[verifier::external_body]
fn table_value(t: toml::map::Map<String, toml::Value>) -> (r: toml::Value)
    ensures
        value_text(r, Seq::empty()) is None,
        forall|p: Seq<Seq<char>>| p.len() > 0 ==> #[trigger] value_text(r, p) == table_text(t, p),
{
    toml::Value::from(t)
}

/// Relies on `toml::to_string`: the table written as a TOML document, which
/// parses back to the same keys and strings. It fails (`None`) on values that
/// cannot be written, such as an invalid datetime.
#[verifier::external_body]
fn render_table(t: &toml::map::Map<String, toml::Value>) -> (r: Option<String>)
    ensures
        r matches Some(s) ==> parsed_keys(s@) == Some(table_keys(*t)),
        r matches Some(s) ==> forall|p: Seq<Seq<char>>| #[trigger] parsed_text(s@, p) == table_text(*t, p),
{
    toml::to_string(t).ok()
}

/// Why the metadata could not be written.
#[derive(Clone, Copy, Debug, PartialEq, Eq, Structural)]
pub enum MetadataError {
    /// The spec file is not valid TOML.
    Unparsable,
    /// The updated table could not be written back as TOML.
    Unrenderable,
}

/// The key path of the stored lockspec name.
pub open spec fn name_path() -> Seq<Seq<char>> {
    seq!["araki"@, "lockspec_name"@]
}

/// `new` is the document `old` with an `araki` table naming the lockspec
/// `name` added: the only string under `araki` is `lockspec_name = name`, and
/// every string outside it is kept.
pub open spec fn metadata_added(old: Seq<char>, name: Seq<char>, new: Seq<char>) -> bool {
    &&& parsed_keys(old) is Some
    &&& parsed_keys(new) == Some(parsed_keys(old).unwrap().insert("araki"@))
    &&& parsed_text(new, name_path()) == Some(name)
    &&& forall|p: Seq<Seq<char>>| p.len() > 0 && p[0] == "araki"@ && p != name_path() ==> #[trigger] parsed_text(new, p) is None
    &&& forall|p: Seq<Seq<char>>| p.len() > 0 && p[0] != "araki"@ ==> #[trigger] parsed_text(new, p) == parsed_text(old, p)
}

/// What writing the metadata naming `name` into the spec file text `text` gives.
pub open spec fn metadata_result(text: Seq<char>, name: Seq<char>, r: Result<Option<String>, MetadataError>) -> bool {
    match parsed_keys(text) {
        None => r == Err::<Option<String>, MetadataError>(MetadataError::Unparsable),
        Some(keys) => if keys.contains("araki"@) {
            r matches Ok(None)
        } else {
            r == Err::<Option<String>, MetadataError>(MetadataError::Unrenderable)
                || (r matches Ok(Some(t)) && metadata_added(text, name, t@))
        },
    }
}

/// Relies on `str::ends_with` with a `char` pattern.
#[verifier::external_body]
fn ends_with_slash(s: &str) -> (r: bool)
    ensures
        r == (s@.len() > 0 && s@.last() == '/'),
{
    s.ends_with('/')
}

/// `name` inside directory `dir`, as `Path::join` writes it.
pub open spec fn joined(dir: Seq<char>, name: Seq<char>) -> Seq<char> {
    if dir.len() == 0 || dir.last() == '/' {
        dir + name
    } else {
        dir + "/"@ + name
    }
}

pub fn join_path(dir: &str, name: &str) -> (r: String)
    ensures
        r@ == joined(dir@, name@),
{
    let mut s = String::from_str(dir);
    if !dir.is_empty() && !ends_with_slash(dir) {
        s.append("/");
    }
    s.append(name);
    s
}

/// `s` as `{:?}` writes it: in double quotes, with special characters escaped.
pub uninterp spec fn debug_of(s: Seq<char>) -> Seq<char>;

/// Relies on `Debug for str`: the quoted, escaped form of the string, which
/// depends on its characters alone.
#[verifier::external_body]
fn debug_text(s: &str) -> (r: String)
    ensures
        r@ == debug_of(s@),
{
    format!("{:?}", s)
}

/// A directory holding a lockspec: the spec file and the lock file.
#[derive(Clone, Debug)]
pub struct LockSpec {
    pub path: String,
}

pub open spec fn listed(existing: Seq<String>, p: Seq<char>) -> bool {
    exists|i: int| 0 <= i < existing.len() && #[trigger] existing[i]@ == p
}

fn is_listed(existing: &Vec<String>, p: &String) -> (r: bool)
    ensures
        r == listed(existing@, p@),
{
    let mut i: usize = 0;
    while i < existing.len()
        invariant
            i <= existing@.len(),
            forall|j: int| 0 <= j < i ==> #[trigger] existing@[j]@ != p@,
        decreases existing@.len() - i,
    {
        if existing[i] == *p {
            return true;
        }
        i = i + 1;
    }
    false
}

impl LockSpec {
    pub open spec fn specfile_spec(&self) -> Seq<char> {
        joined(self.path@, "pixi.toml"@)
    }

    pub open spec fn lockfile_spec(&self) -> Seq<char> {
        joined(self.path@, "pixi.lock"@)
    }

    /// The spec file's path.
    pub fn specfile(&self) -> (r: String)
        ensures
            r@ == self.specfile_spec(),
    {
        join_path(self.path.as_str(), "pixi.toml")
    }

    /// The lock file's path.
    pub fn lockfile(&self) -> (r: String)
        ensures
            r@ == self.lockfile_spec(),
    {
        join_path(self.path.as_str(), "pixi.lock")
    }

    /// Whether both descriptor files are among the `existing` paths.
    pub fn files_exist(&self, existing: &Vec<String>) -> (r: bool)
        ensures
            r == (listed(existing@, self.lockfile_spec()) && listed(existing@, self.specfile_spec())),
    {
        let lock = self.lockfile();
        let spec = self.specfile();
        is_listed(existing, &lock) && is_listed(existing, &spec)
    }

    /// The lockspec in `path`, provided both descriptor files are among the
    /// `existing` paths.
    pub fn from_path(path: &str, existing: &Vec<String>) -> (r: Result<LockSpec, String>)
        ensures
            r is Ok <==> listed(existing@, joined(path@, "pixi.lock"@)) && listed(existing@, joined(path@, "pixi.toml"@)),
            r matches Ok(ls) ==> ls.path@ == path@,
            r matches Err(m) ==> m@ == "No lockspec files found in "@ + debug_of(path@),
    {
        let ls = LockSpec { path: String::from_str(path) };
        if ls.files_exist(existing) {
            Ok(ls)
        } else {
            let mut m = String::from_str("No lockspec files found in ");
            let quoted = debug_text(path);
            m.append(quoted.as_str());
            Err(m)
        }
    }

    /// The spec file's new text with an `araki` table naming the lockspec, or
    /// `None` when the file already has an `araki` table and must stay as it is.
    pub fn ensure_araki_metadata(&self, specfile_text: &str, lockspec_name: &str) -> (r: Result<Option<String>, MetadataError>)
        ensures
            metadata_result(specfile_text@, lockspec_name@, r),
    {
        let mut table = match parse_table(specfile_text) {
            Ok(t) => t,
            Err(_) => return Err(MetadataError::Unparsable),
        };
        if table_has(&table, "araki") {
            return Ok(None);
        }
        let mut araki = new_table();
        let ghost empty = araki;
        let name_value = text_value(lockspec_name);
        table_insert(&mut araki, "lockspec_name", name_value);
        let ghost inner = araki;
        let araki_value = table_value(araki);
        table_insert(&mut table, "araki", araki_value);
        let text = match render_table(&table) {
            Some(t) => t,
            None => return Err(MetadataError::Unrenderable),
        };
        proof {
            let np = name_path();
            assert(np.drop_first() =~= seq!["lockspec_name"@]);
            assert(seq!["lockspec_name"@].drop_first() =~= Seq::<Seq<char>>::empty());
            assert(parsed_text(text@, np) == table_text(table, np));
            assert forall|p: Seq<Seq<char>>| p.len() > 0 && p[0] == "araki"@ && p != np implies #[trigger] parsed_text(text@, p) is None by {
                assert(parsed_text(text@, p) == table_text(table, p));
                let q = p.drop_first();
                assert(table_text(table, p) == value_text(araki_value, q));
                if q.len() == 0 {
                    assert(q =~= Seq::<Seq<char>>::empty());
                } else {
                    assert(value_text(araki_value, q) == table_text(inner, q));
                    if q[0] == "lockspec_name"@ {
                        assert(table_text(inner, q) == value_text(name_value, q.drop_first()));
                        if q.drop_first().len() == 0 {
                            assert(p =~= np);
                        } else {
                            assert(value_text(name_value, q.drop_first()) is None);
                        }
                    } else {
                        assert(table_text(inner, q) == table_text(empty, q));
                    }
                }
            }
        }
        Ok(Some(text))
    }
}

/// The answer to one credential request of the remote transport.
#[derive(Debug)]
pub enum Credential {
    /// Ask the local ssh agent for a key for this user.
    SshAgent(String),
    /// Give up with this message.
    Refuse(String),
}

/// Decides one credential request. `tried_agent` says whether the agent was
/// already asked during this fetch or push; the second result is its new value.
/// Only the ssh agent is ever used, and only once.
pub fn credential_step(tried_agent: bool, username: Option<&str>, ssh_key_allowed: bool) -> (r: (Credential, bool))
    ensures
        username is None ==> (r.0 matches Credential::Refuse(m) && m@ == "Unable to get the ssh username from the URL."@) && r.1 == tried_agent,
        username is Some && tried_agent ==> (r.0 matches Credential::Refuse(m) && m@ == "Unable to authenticate via ssh. Is ssh-agent running, and have you added the ssh key you use for git?"@) && r.1,
        !tried_agent && ssh_key_allowed ==> (username matches Some(u) ==> (r.0 matches Credential::SshAgent(n) && n@ == u@ && r.1)),
        username is Some && !tried_agent && !ssh_key_allowed ==> (r.0 matches Credential::Refuse(m) && m@ == "araki only supports ssh for git interactions. Please configure ssh-agent."@) && !r.1,
{
    match username {
        None => (Credential::Refuse(String::from_str("Unable to get the ssh username from the URL.")), tried_agent),
        Some(u) => if tried_agent {
            (Credential::Refuse(String::from_str("Unable to authenticate via ssh. Is ssh-agent running, and have you added the ssh key you use for git?")), true)
        } else if ssh_key_allowed {
            (Credential::SshAgent(String::from_str(u)), true)
        } else {
            (Credential::Refuse(String::from_str("araki only supports ssh for git interactions. Please configure ssh-agent.")), false)
        },
    }
}

/// The line that keeps the hidden history directory out of the user's own git.
pub open spec fn gitignore_entry() -> Seq<char> {
    ".araki-git/"@
}

pub open spec fn contains_spec(s: Seq<char>, pat: Seq<char>) -> bool {
    exists|i: int| 0 <= i <= s.len() - pat.len() && #[trigger] s.subrange(i, i + pat.len()) == pat
}

/// Relies on `str::contains` with a `&str` pattern.
#[verifier::external_body]
pub(crate) fn contains_text(s: &str, pat: &str) -> (r: bool)
    ensures
        r == contains_spec(s@, pat@),
{
    s.contains(pat)
}

/// The text to append to the ignore file (`None` if it could not be read), if
/// any: nothing when it already mentions the history directory.
pub fn gitignore_addition(current: Option<&str>) -> (r: Option<String>)
    ensures
        r matches Some(a) ==> a@ == gitignore_entry() + "\n"@,
        r is None <==> (current matches Some(c) && contains_spec(c@, gitignore_entry())),
{
    let needed = match current {
        Some(c) => !contains_text(c, ".araki-git/"),
        None => true,
    };
    if needed {
        let mut a = String::from_str(".araki-git/");
        a.append("\n");
        Some(a)
    } else {
        None
    }
}

} // verus!
