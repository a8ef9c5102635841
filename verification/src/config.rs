//! The configuration file: a YAML document that names the repositories and
//! their paths, named lists of repositories, the SSH key pair and the
//! signature used for commits.

use vstd::prelude::*;

verus! {

#[verifier::external_type_specification]
#[verifier::external_body]
pub struct ExYaml(yaml_rust::Yaml);

/// A YAML node, variant for variant as the YAML loader builds it; a mapping
/// keeps its pairs in document order.
pub enum YamlNode {
    Real(String),
    Integer(i64),
    Str(String),
    Boolean(bool),
    Array(Vec<YamlNode>),
    Hash(Vec<(YamlNode, YamlNode)>),
    Alias(usize),
    Null,
    BadValue,
}

/// What the YAML loader makes of a text: its documents, or `None` when the
/// text is not well-formed YAML.
pub uninterp spec fn parsed_yaml(text: Seq<char>) -> Option<Seq<YamlNode>>;

/// Converts one node of the loader's tree, and its children.
#[verifier::external_body]
fn node_from_yaml(y: yaml_rust::Yaml) -> YamlNode {
    match y {
        yaml_rust::Yaml::Real(s) => YamlNode::Real(s),
        yaml_rust::Yaml::Integer(i) => YamlNode::Integer(i),
        yaml_rust::Yaml::String(s) => YamlNode::Str(s),
        yaml_rust::Yaml::Boolean(b) => YamlNode::Boolean(b),
        yaml_rust::Yaml::Array(a) => YamlNode::Array(a.into_iter().map(node_from_yaml).collect()),
        yaml_rust::Yaml::Hash(h) => YamlNode::Hash(h.into_iter().map(|(k, v)| (node_from_yaml(k), node_from_yaml(v))).collect()),
        yaml_rust::Yaml::Alias(n) => YamlNode::Alias(n),
        yaml_rust::Yaml::Null => YamlNode::Null,
        yaml_rust::Yaml::BadValue => YamlNode::BadValue,
    }
}

/// `yaml_rust::YamlLoader::load_from_str`: the documents of the text, node for
/// node, or the scanner's error, written with `Debug`, when the text is not
/// well-formed YAML. The text of that error is not stated.
#[verifier::external_body]
fn load_yaml(text: &str) -> (docs: Result<Vec<YamlNode>, String>)
    ensures
        match docs {
            Ok(d) => parsed_yaml(text@) == Some(d@),
            Err(_) => parsed_yaml(text@) is None,
        },
{
    match yaml_rust::YamlLoader::load_from_str(text) {
        Ok(d) => Ok(d.into_iter().map(node_from_yaml).collect()),
        Err(e) => Err(format!("{:?}", e)),
    }
}

/// Why a configuration cannot be read.
#[derive(Debug)]
pub enum ConfigError {
    /// The text is not well-formed YAML; the loader's error, as text.
    Malformed(String),
    /// The text holds no YAML document.
    NoDocument,
    /// `repos` is missing or is not a mapping.
    ReposNotMapping,
    /// A repository name is not text.
    RepoNameNotText,
    /// A repository path is not text.
    RepoPathNotText,
    /// `lists` is missing or is not a mapping.
    ListsNotMapping,
    /// A member of a list is not text.
    ListMemberNotText,
    /// A list name is not text.
    ListNameNotText,
    /// `ssh_priv` is missing or is not text.
    MissingSshPrivateKey,
    /// `ssh_pub` is missing or is not text.
    MissingSshPublicKey,
    /// `signature_name` is missing or is not text.
    MissingSignatureName,
    /// `signature_mail` is missing or is not text.
    MissingSignatureMail,
}

/// The configuration: repositories by name with their paths, lists of
/// repository names by list name, the SSH key files and the commit signature.
pub struct RepoConfig {
    pub repos: Vec<(String, String)>,
    pub lists: Vec<(String, Vec<String>)>,
    pub ssh_priv: String,
    pub ssh_pub: String,
    pub signature_name: String,
    pub signature_mail: String,
}

/// The configuration as mathematical values.
pub struct ConfigView {
    pub repos: Seq<(Seq<char>, Seq<char>)>,
    pub lists: Seq<(Seq<char>, Seq<Seq<char>>)>,
    pub ssh_priv: Seq<char>,
    pub ssh_pub: Seq<char>,
    pub signature_name: Seq<char>,
    pub signature_mail: Seq<char>,
}

impl View for RepoConfig {
    type V = ConfigView;

    open spec fn view(&self) -> ConfigView {
        ConfigView {
            repos: self.repos.deep_view(),
            lists: self.lists.deep_view(),
            ssh_priv: self.ssh_priv@,
            ssh_pub: self.ssh_pub@,
            signature_name: self.signature_name@,
            signature_mail: self.signature_mail@,
        }
    }
}

/// No key occurs twice in a table.
pub open spec fn keys_distinct<V>(t: Seq<(Seq<char>, V)>) -> bool {
    forall|i: int, j: int| 0 <= i < j < t.len() ==> #[trigger] t[i].0 != #[trigger] t[j].0
}

impl ConfigView {
    /// Each repository and each list is named once.
    pub open spec fn wf(self) -> bool {
        keys_distinct(self.repos) && keys_distinct(self.lists)
    }
}

/// Whether a table has an entry for `k`.
pub open spec fn has_key<V>(t: Seq<(Seq<char>, V)>, k: Seq<char>) -> bool {
    exists|i: int| 0 <= i < t.len() && #[trigger] t[i].0 == k
}

/// The value of `k` in a table whose keys are distinct.
pub open spec fn value_of<V>(t: Seq<(Seq<char>, V)>, k: Seq<char>) -> V
    recommends
        has_key(t, k),
{
    t[choose|i: int| 0 <= i < t.len() && #[trigger] t[i].0 == k].1
}

/// A table after setting `k` to `v`: the entry of `k` takes the new value in
/// place, or a new entry comes last.
pub open spec fn table_insert<V>(t: Seq<(Seq<char>, V)>, k: Seq<char>, v: V) -> Seq<(Seq<char>, V)> {
    if has_key(t, k) {
        t.update(choose|i: int| 0 <= i < t.len() && #[trigger] t[i].0 == k, (k, v))
    } else {
        t.push((k, v))
    }
}

/// The value stored under `key` in a mapping node: that of its first pair
/// whose key is the text `key`.
pub open spec fn find_pair(pairs: Seq<(YamlNode, YamlNode)>, key: Seq<char>) -> Option<YamlNode>
    decreases pairs.len(),
{
    if pairs.len() == 0 {
        None
    } else if pairs[0].0 matches YamlNode::Str(k) && k@ == key {
        Some(pairs[0].1)
    } else {
        find_pair(pairs.drop_first(), key)
    }
}

/// Indexing a node by a text key: the value in a mapping, nothing otherwise.
pub open spec fn index_node(n: YamlNode, key: Seq<char>) -> Option<YamlNode> {
    match n {
        YamlNode::Hash(pairs) => find_pair(pairs@, key),
        _ => None,
    }
}

/// The text of a node indexed by `key`, when there is one.
pub open spec fn text_at(n: YamlNode, key: Seq<char>) -> Option<Seq<char>> {
    match index_node(n, key) {
        Some(YamlNode::Str(s)) => Some(s@),
        _ => None,
    }
}

/// The repository table read from the pairs of `repos`, in order, the first
/// pair with a non-text name or path deciding the error.
pub open spec fn repo_table(pairs: Seq<(YamlNode, YamlNode)>) -> Result<Seq<(Seq<char>, Seq<char>)>, ConfigError>
    decreases pairs.len(),
{
    if pairs.len() == 0 {
        Ok(Seq::empty())
    } else {
        match repo_table(pairs.drop_last()) {
            Err(e) => Err(e),
            Ok(t) => match pairs.last().0 {
                YamlNode::Str(k) => match pairs.last().1 {
                    YamlNode::Str(v) => Ok(table_insert(t, k@, v@)),
                    _ => Err(ConfigError::RepoPathNotText),
                },
                _ => Err(ConfigError::RepoNameNotText),
            },
        }
    }
}

/// The texts of a sequence of nodes, the first non-text one deciding the error.
pub open spec fn texts(items: Seq<YamlNode>) -> Result<Seq<Seq<char>>, ConfigError>
    decreases items.len(),
{
    if items.len() == 0 {
        Ok(Seq::empty())
    } else {
        match texts(items.drop_last()) {
            Err(e) => Err(e),
            Ok(t) => match items.last() {
                YamlNode::Str(s) => Ok(t.push(s@)),
                _ => Err(ConfigError::ListMemberNotText),
            },
        }
    }
}

/// The members of a list: the texts of a sequence node; any other node
/// lists nothing.
pub open spec fn members(n: YamlNode) -> Result<Seq<Seq<char>>, ConfigError> {
    match n {
        YamlNode::Array(items) => texts(items@),
        _ => Ok(Seq::empty()),
    }
}

/// The list table read from the pairs of `lists`, in order; within a pair
/// the members are read before the name.
pub open spec fn list_table(pairs: Seq<(YamlNode, YamlNode)>) -> Result<Seq<(Seq<char>, Seq<Seq<char>>)>, ConfigError>
    decreases pairs.len(),
{
    if pairs.len() == 0 {
        Ok(Seq::empty())
    } else {
        match list_table(pairs.drop_last()) {
            Err(e) => Err(e),
            Ok(t) => match members(pairs.last().1) {
                Err(e) => Err(e),
                Ok(m) => match pairs.last().0 {
                    YamlNode::Str(k) => Ok(table_insert(t, k@, m)),
                    _ => Err(ConfigError::ListNameNotText),
                },
            },
        }
    }
}

/// The configuration that the first document describes, read in this order:
/// `repos`, `lists`, `ssh_priv`, `ssh_pub`, `signature_name`,
/// `signature_mail`; the first thing missing or ill-typed decides the error.
pub open spec fn config_of(docs: Seq<YamlNode>) -> Result<ConfigView, ConfigError> {
    if docs.len() == 0 {
        Err(ConfigError::NoDocument)
    } else {
        let conf = docs[0];
        match index_node(conf, "repos"@) {
            Some(YamlNode::Hash(rp)) => match repo_table(rp@) {
                Err(e) => Err(e),
                Ok(repos) => match index_node(conf, "lists"@) {
                    Some(YamlNode::Hash(lp)) => match list_table(lp@) {
                        Err(e) => Err(e),
                        Ok(lists) => match (
                            text_at(conf, "ssh_priv"@),
                            text_at(conf, "ssh_pub"@),
                            text_at(conf, "signature_name"@),
                            text_at(conf, "signature_mail"@),
                        ) {
                            (None, _, _, _) => Err(ConfigError::MissingSshPrivateKey),
                            (Some(_), None, _, _) => Err(ConfigError::MissingSshPublicKey),
                            (Some(_), Some(_), None, _) => Err(ConfigError::MissingSignatureName),
                            (Some(_), Some(_), Some(_), None) => Err(ConfigError::MissingSignatureMail),
                            (Some(a), Some(b), Some(c), Some(d)) => Ok(ConfigView {
                                repos,
                                lists,
                                ssh_priv: a,
                                ssh_pub: b,
                                signature_name: c,
                                signature_mail: d,
                            }),
                        },
                    },
                    _ => Err(ConfigError::ListsNotMapping),
                },
            },
            _ => Err(ConfigError::ReposNotMapping),
        }
    }
}

pub open spec fn config_result_view(r: Result<RepoConfig, ConfigError>) -> Result<ConfigView, ConfigError> {
    match r {
        Ok(c) => Ok(c@),
        Err(e) => Err(e),
    }
}


fn find_value<'a>(pairs: &'a Vec<(YamlNode, YamlNode)>, key: &String) -> (r: Option<&'a YamlNode>)
    ensures
        match r {
            Some(v) => find_pair(pairs@, key@) == Some(*v),
            None => find_pair(pairs@, key@) is None,
        },
{
    let mut i: usize = 0;
    assert(pairs@.skip(0) =~= pairs@);
    while i < pairs.len()
        invariant
            i <= pairs@.len(),
            find_pair(pairs@, key@) == find_pair(pairs@.skip(i as int), key@),
        decreases pairs@.len() - i,
    {
        let ghost rest = pairs@.skip(i as int);
        assert(rest[0] == pairs@[i as int]);
        assert(rest.drop_first() =~= pairs@.skip(i + 1));
        let hit = match &pairs[i].0 {
            YamlNode::Str(k) => k.eq(key),
            _ => false,
        };
        if hit {
            return Some(&pairs[i].1);
        }
        i = i + 1;
    }
    None
}

fn index_of<'a>(n: &'a YamlNode, key: &String) -> (r: Option<&'a YamlNode>)
    ensures
        match r {
            Some(v) => index_node(*n, key@) == Some(*v),
            None => index_node(*n, key@) is None,
        },
{
    match n {
        YamlNode::Hash(pairs) => find_value(pairs, key),
        _ => None,
    }
}

fn text_of(n: &YamlNode, key: &String) -> (r: Option<String>)
    ensures
        match r {
            Some(s) => text_at(*n, key@) == Some(s@),
            None => text_at(*n, key@) is None,
        },
{
    match index_of(n, key) {
        Some(YamlNode::Str(s)) => Some(s.clone()),
        _ => None,
    }
}

/// Sets `k` to `v` in a table whose keys are distinct.
pub fn insert_entry<V: DeepView>(t: &mut Vec<(String, V)>, k: String, v: V)
    requires
        keys_distinct(old(t).deep_view()),
    ensures
        final(t).deep_view() == table_insert(old(t).deep_view(), k@, v.deep_view()),
        keys_distinct(final(t).deep_view()),
{
    let ghost old_t = t.deep_view();
    let ghost kv = k@;
    let ghost vv = v.deep_view();
    let mut i: usize = 0;
    while i < t.len()
        invariant
            i <= t@.len(),
            t.deep_view() == old_t,
            keys_distinct(old_t),
            old_t == old(t).deep_view(),
            kv == k@,
            vv == v.deep_view(),
            forall|j: int| 0 <= j < i ==> #[trigger] old_t[j].0 != kv,
        decreases t@.len() - i,
    {
        if t[i].0.eq(&k) {
            assert(old_t[i as int].0 == kv);
            assert(has_key(old_t, kv));
            let ghost c = choose|j: int| 0 <= j < old_t.len() && #[trigger] old_t[j].0 == kv;
            assert(c == i) by {
                if c < i {
                    assert(old_t[c].0 != old_t[i as int].0);
                } else if c > i {
                    assert(old_t[i as int].0 != old_t[c].0);
                }
            }
            let ghost pre = t@;
            t.set(i, (k, v));
            assert forall|j: int| 0 <= j < t@.len() implies #[trigger] t.deep_view()[j] == old_t.update(
                i as int,
                (kv, vv),
            )[j] by {
                if j != i {
                    assert(t@[j] == pre[j]);
                }
            }
            assert(t.deep_view() =~= old_t.update(i as int, (kv, vv)));
            return;
        }
        i = i + 1;
    }
    assert(!has_key(old_t, kv));
    t.push((k, v));
    assert(t.deep_view() =~= old_t.push((kv, vv)));
}

proof fn lemma_repo_table_prefix_err(s: Seq<(YamlNode, YamlNode)>, k: int)
    requires
        0 <= k <= s.len(),
        repo_table(s.take(k)) is Err,
    ensures
        repo_table(s) == repo_table(s.take(k)),
    decreases s.len() - k,
{
    if k < s.len() {
        assert(s.drop_last().take(k) =~= s.take(k));
        lemma_repo_table_prefix_err(s.drop_last(), k);
    } else {
        assert(s.take(k) =~= s);
    }
}

proof fn lemma_list_table_prefix_err(s: Seq<(YamlNode, YamlNode)>, k: int)
    requires
        0 <= k <= s.len(),
        list_table(s.take(k)) is Err,
    ensures
        list_table(s) == list_table(s.take(k)),
    decreases s.len() - k,
{
    if k < s.len() {
        assert(s.drop_last().take(k) =~= s.take(k));
        lemma_list_table_prefix_err(s.drop_last(), k);
    } else {
        assert(s.take(k) =~= s);
    }
}

proof fn lemma_texts_prefix_err(s: Seq<YamlNode>, k: int)
    requires
        0 <= k <= s.len(),
        texts(s.take(k)) is Err,
    ensures
        texts(s) == texts(s.take(k)),
    decreases s.len() - k,
{
    if k < s.len() {
        assert(s.drop_last().take(k) =~= s.take(k));
        lemma_texts_prefix_err(s.drop_last(), k);
    } else {
        assert(s.take(k) =~= s);
    }
}

fn read_repos(pairs: &Vec<(YamlNode, YamlNode)>) -> (r: Result<Vec<(String, String)>, ConfigError>)
    ensures
        match r {
            Ok(t) => repo_table(pairs@) == Ok::<_, ConfigError>(t.deep_view()) && keys_distinct(t.deep_view()),
            Err(e) => repo_table(pairs@) == Err::<Seq<(Seq<char>, Seq<char>)>, _>(e),
        },
{
    let mut t: Vec<(String, String)> = Vec::new();
    let mut i: usize = 0;
    assert(t.deep_view() =~= Seq::<(Seq<char>, Seq<char>)>::empty());
    assert(pairs@.take(0) =~= Seq::<(YamlNode, YamlNode)>::empty());
    while i < pairs.len()
        invariant
            i <= pairs@.len(),
            repo_table(pairs@.take(i as int)) == Ok::<_, ConfigError>(t.deep_view()),
            keys_distinct(t.deep_view()),
        decreases pairs@.len() - i,
    {
        let ghost s1 = pairs@.take(i + 1);
        proof {
            assert(s1.drop_last() =~= pairs@.take(i as int));
            assert(s1.last() == pairs@[i as int]);
        }
        match &pairs[i].0 {
            YamlNode::Str(k) => match &pairs[i].1 {
                YamlNode::Str(v) => {
                    insert_entry(&mut t, k.clone(), v.clone());
                },
                _ => {
                    proof { lemma_repo_table_prefix_err(pairs@, i + 1); }
                    return Err(ConfigError::RepoPathNotText);
                },
            },
            _ => {
                proof { lemma_repo_table_prefix_err(pairs@, i + 1); }
                return Err(ConfigError::RepoNameNotText);
            },
        }
        i = i + 1;
    }
    assert(pairs@.take(i as int) =~= pairs@);
    Ok(t)
}

fn read_members(n: &YamlNode) -> (r: Result<Vec<String>, ConfigError>)
    ensures
        match r {
            Ok(m) => members(*n) == Ok::<_, ConfigError>(m.deep_view()),
            Err(e) => members(*n) == Err::<Seq<Seq<char>>, _>(e),
        },
        (*n matches YamlNode::Array(items) && forall|j: int| 0 <= j < items@.len() ==> #[trigger] items@[j] is Str)
            ==> (r matches Ok(m) && m.deep_view() == node_texts(n->Array_0@)),
{
    proof {
        if *n is Array && forall|j: int| 0 <= j < n->Array_0@.len() ==> #[trigger] n->Array_0@[j] is Str {
            lemma_members_of_sequence(*n);
        }
    }
    match n {
        YamlNode::Array(items) => {
            let mut m: Vec<String> = Vec::new();
            let mut i: usize = 0;
            assert(items@.take(0) =~= Seq::<YamlNode>::empty());
            assert(m.deep_view() =~= Seq::<Seq<char>>::empty());
            while i < items.len()
                invariant
                    i <= items@.len(),
                    members(*n) == texts(items@),
                    *n is Array && n->Array_0@ == items@,
                    texts(items@.take(i as int)) == Ok::<_, ConfigError>(m.deep_view()),
                decreases items@.len() - i,
            {
                let ghost s1 = items@.take(i + 1);
                proof {
                    assert(s1.drop_last() =~= items@.take(i as int));
                    assert(s1.last() == items@[i as int]);
                }
                match &items[i] {
                    YamlNode::Str(s) => {
                        let ghost before = m.deep_view();
                        m.push(s.clone());
                        assert(m.deep_view() =~= before.push(s@));
                    },
                    _ => {
                        proof {
                            lemma_texts_prefix_err(items@, i + 1);
                            lemma_texts_read(items@);
                        }
                        return Err(ConfigError::ListMemberNotText);
                    },
                }
                i = i + 1;
            }
            assert(items@.take(i as int) =~= items@);
            Ok(m)
        },
        _ => {
            let m: Vec<String> = Vec::new();
            assert(m.deep_view() =~= Seq::<Seq<char>>::empty());
            Ok(m)
        },
    }
}

fn read_lists(pairs: &Vec<(YamlNode, YamlNode)>) -> (r: Result<Vec<(String, Vec<String>)>, ConfigError>)
    ensures
        match r {
            Ok(t) => list_table(pairs@) == Ok::<_, ConfigError>(t.deep_view()) && keys_distinct(t.deep_view()),
            Err(e) => list_table(pairs@) == Err::<Seq<(Seq<char>, Seq<Seq<char>>)>, _>(e),
        },
{
    let mut t: Vec<(String, Vec<String>)> = Vec::new();
    let mut i: usize = 0;
    assert(t.deep_view() =~= Seq::<(Seq<char>, Seq<Seq<char>>)>::empty());
    assert(pairs@.take(0) =~= Seq::<(YamlNode, YamlNode)>::empty());
    while i < pairs.len()
        invariant
            i <= pairs@.len(),
            list_table(pairs@.take(i as int)) == Ok::<_, ConfigError>(t.deep_view()),
            keys_distinct(t.deep_view()),
        decreases pairs@.len() - i,
    {
        let ghost s1 = pairs@.take(i + 1);
        proof {
            assert(s1.drop_last() =~= pairs@.take(i as int));
            assert(s1.last() == pairs@[i as int]);
        }
        let m = match read_members(&pairs[i].1) {
            Ok(m) => m,
            Err(e) => {
                proof { lemma_list_table_prefix_err(pairs@, i + 1); }
                return Err(e);
            },
        };
        match &pairs[i].0 {
            YamlNode::Str(k) => {
                insert_entry(&mut t, k.clone(), m);
            },
            _ => {
                proof { lemma_list_table_prefix_err(pairs@, i + 1); }
                return Err(ConfigError::ListNameNotText);
            },
        }
        i = i + 1;
    }
    assert(pairs@.take(i as int) =~= pairs@);
    Ok(t)
}

/// Reads the configuration from the documents of a YAML text.
pub fn config_from_documents(docs: &Vec<YamlNode>) -> (r: Result<RepoConfig, ConfigError>)
    ensures
        config_result_view(r) == config_of(docs@),
        r matches Ok(c) ==> c@.wf(),
{
    if docs.len() == 0 {
        return Err(ConfigError::NoDocument);
    }
    let conf = &docs[0];
    let repos = match index_of(conf, &String::from_str("repos")) {
        Some(YamlNode::Hash(rp)) => match read_repos(rp) {
            Ok(t) => t,
            Err(e) => {
                return Err(e);
            },
        },
        _ => {
            return Err(ConfigError::ReposNotMapping);
        },
    };
    let lists = match index_of(conf, &String::from_str("lists")) {
        Some(YamlNode::Hash(lp)) => match read_lists(lp) {
            Ok(t) => t,
            Err(e) => {
                return Err(e);
            },
        },
        _ => {
            return Err(ConfigError::ListsNotMapping);
        },
    };
    let ssh_priv = match text_of(conf, &String::from_str("ssh_priv")) {
        Some(s) => s,
        None => {
            return Err(ConfigError::MissingSshPrivateKey);
        },
    };
    let ssh_pub = match text_of(conf, &String::from_str("ssh_pub")) {
        Some(s) => s,
        None => {
            return Err(ConfigError::MissingSshPublicKey);
        },
    };
    let signature_name = match text_of(conf, &String::from_str("signature_name")) {
        Some(s) => s,
        None => {
            return Err(ConfigError::MissingSignatureName);
        },
    };
    let signature_mail = match text_of(conf, &String::from_str("signature_mail")) {
        Some(s) => s,
        None => {
            return Err(ConfigError::MissingSignatureMail);
        },
    };
    Ok(RepoConfig { repos, lists, ssh_priv, ssh_pub, signature_name, signature_mail })
}

/// Reads the configuration from the text of the configuration file.
pub fn load_config(text: &str) -> (r: Result<RepoConfig, ConfigError>)
    ensures
        match parsed_yaml(text@) {
            None => r is Err && r->Err_0 is Malformed,
            Some(docs) => config_result_view(r) == config_of(docs),
        },
        r matches Ok(c) ==> c@.wf(),
{
    match load_yaml(text) {
        Ok(docs) => config_from_documents(&docs),
        Err(msg) => Err(ConfigError::Malformed(msg)),
    }
}


/// Reading a key after setting it gives the value set, and every other key
/// keeps its presence and value; the keys stay distinct.
pub proof fn lemma_table_insert_get<V>(t: Seq<(Seq<char>, V)>, k: Seq<char>, v: V, other: Seq<char>)
    requires
        keys_distinct(t),
    ensures
        keys_distinct(table_insert(t, k, v)),
        has_key(table_insert(t, k, v), k),
        value_of(table_insert(t, k, v), k) == v,
        other != k ==> (has_key(table_insert(t, k, v), other) <==> has_key(t, other)),
        other != k && has_key(t, other) ==> value_of(table_insert(t, k, v), other) == value_of(t, other),
{
    let t2 = table_insert(t, k, v);
    if has_key(t, k) {
        let c = choose|i: int| 0 <= i < t.len() && #[trigger] t[i].0 == k;
        assert(t2[c].0 == k);
        assert forall|i: int, j: int| 0 <= i < j < t2.len() implies #[trigger] t2[i].0 != #[trigger] t2[j].0 by {
            if i == c {
                assert(t[j].0 != t[c].0);
            } else if j == c {
                assert(t[i].0 != t[c].0);
            } else {
                assert(t[i].0 != t[j].0);
            }
        }
    } else {
        assert(t2[t.len() as int].0 == k);
        assert forall|i: int, j: int| 0 <= i < j < t2.len() implies #[trigger] t2[i].0 != #[trigger] t2[j].0 by {
            if j == t.len() {
                assert(t[i].0 != k);
            } else {
                assert(t[i].0 != t[j].0);
            }
        }
    }
    let ck = choose|i: int| 0 <= i < t2.len() && #[trigger] t2[i].0 == k;
    if has_key(t, k) {
        let c = choose|i: int| 0 <= i < t.len() && #[trigger] t[i].0 == k;
        assert(ck == c) by {
            if ck != c {
                if ck < c { assert(t2[ck].0 != t2[c].0); } else { assert(t2[c].0 != t2[ck].0); }
            }
        }
    } else {
        assert(ck == t.len()) by {
            if ck < t.len() {
                assert(t[ck].0 == k);
            }
        }
    }
    if other != k {
        if has_key(t, other) {
            let co = choose|i: int| 0 <= i < t.len() && #[trigger] t[i].0 == other;
            assert(t2[co].0 == other);
            let c2 = choose|i: int| 0 <= i < t2.len() && #[trigger] t2[i].0 == other;
            assert(c2 == co) by {
                if c2 != co {
                    if c2 < co { assert(t2[c2].0 != t2[co].0); } else { assert(t2[co].0 != t2[c2].0); }
                }
            }
        }
        if has_key(t2, other) {
            let c2 = choose|i: int| 0 <= i < t2.len() && #[trigger] t2[i].0 == other;
            assert(c2 < t.len());
            assert(t[c2].0 == other);
        }
    }
}


/// The text a node holds, or nothing when it holds none.
pub open spec fn node_text(n: YamlNode) -> Seq<char> {
    match n {
        YamlNode::Str(s) => s@,
        _ => Seq::empty(),
    }
}

/// The texts of nodes, one for one.
pub open spec fn node_texts(items: Seq<YamlNode>) -> Seq<Seq<char>> {
    Seq::new(items.len(), |j: int| node_text(items[j]))
}

/// A sequence of text nodes reads as exactly those texts, in order; a
/// sequence with a node that is not text reads as an error.
pub proof fn lemma_texts_read(items: Seq<YamlNode>)
    ensures
        (forall|j: int| 0 <= j < items.len() ==> #[trigger] items[j] is Str) ==> texts(items) == Ok::<
            _,
            ConfigError,
        >(node_texts(items)),
        (exists|j: int| 0 <= j < items.len() && !(#[trigger] items[j] is Str)) ==> texts(items) is Err,
    decreases items.len(),
{
    if items.len() == 0 {
        assert(node_texts(items) =~= Seq::<Seq<char>>::empty());
    } else {
        let d = items.drop_last();
        lemma_texts_read(d);
        if forall|j: int| 0 <= j < items.len() ==> #[trigger] items[j] is Str {
            assert forall|j: int| 0 <= j < d.len() implies #[trigger] d[j] is Str by {
                assert(items[j] is Str);
            }
            assert(node_texts(items) =~= node_texts(d).push(node_text(items.last())));
        }
        if exists|j: int| 0 <= j < items.len() && !(#[trigger] items[j] is Str) {
            let j = choose|j: int| 0 <= j < items.len() && !(#[trigger] items[j] is Str);
            if j < d.len() {
                assert(!(d[j] is Str));
            }
        }
    }
}

/// A list given as a sequence of texts has exactly those texts as members,
/// in order.
pub proof fn lemma_members_of_sequence(n: YamlNode)
    requires
        n matches YamlNode::Array(items) && forall|j: int| 0 <= j < items@.len() ==> #[trigger] items@[j] is Str,
    ensures
        n matches YamlNode::Array(items) && members(n) == Ok::<_, ConfigError>(node_texts(items@)),
        members(n) matches Ok(m) && m.len() == n->Array_0@.len(),
{
    if let YamlNode::Array(items) = n {
        lemma_texts_read(items@);
    }
}

/// Text keys of pairs that are all distinct.
pub open spec fn distinct_text_keys(pairs: Seq<(YamlNode, YamlNode)>) -> bool {
    &&& forall|i: int| 0 <= i < pairs.len() ==> #[trigger] pairs[i].0 is Str
    &&& forall|i: int, j: int|
        0 <= i < j < pairs.len() ==> node_text(#[trigger] pairs[i].0) != node_text(#[trigger] pairs[j].0)
}

proof fn lemma_insert_new_key<V>(t: Seq<(Seq<char>, V)>, k: Seq<char>, v: V)
    requires
        forall|i: int| 0 <= i < t.len() ==> #[trigger] t[i].0 != k,
    ensures
        table_insert(t, k, v) == t.push((k, v)),
{
}

/// Repositories given with distinct text names and text paths read as
/// exactly those pairs, in order.
pub proof fn lemma_repo_table_read(pairs: Seq<(YamlNode, YamlNode)>)
    requires
        distinct_text_keys(pairs),
        forall|i: int| 0 <= i < pairs.len() ==> #[trigger] pairs[i].1 is Str,
    ensures
        repo_table(pairs) == Ok::<_, ConfigError>(
            Seq::new(pairs.len(), |i: int| (node_text(pairs[i].0), node_text(pairs[i].1))),
        ),
    decreases pairs.len(),
{
    if pairs.len() == 0 {
        assert(Seq::new(pairs.len(), |i: int| (node_text(pairs[i].0), node_text(pairs[i].1))) =~= Seq::<(Seq<char>, Seq<char>)>::empty());
    } else {
        let d = pairs.drop_last();
        assert forall|i: int| 0 <= i < d.len() implies #[trigger] d[i].0 is Str && d[i].1 is Str by {
            assert(pairs[i].0 is Str);
            assert(pairs[i].1 is Str);
        }
        assert forall|i: int, j: int| 0 <= i < j < d.len() implies node_text(#[trigger] d[i].0) != node_text(#[trigger] d[j].0) by {
            assert(node_text(pairs[i].0) != node_text(pairs[j].0));
        }
        lemma_repo_table_read(d);
        let t = Seq::new(d.len(), |i: int| (node_text(d[i].0), node_text(d[i].1)));
        let last = pairs.last();
        assert(last.0 is Str && last.1 is Str) by {
            assert(pairs[pairs.len() - 1].0 is Str);
            assert(pairs[pairs.len() - 1].1 is Str);
        }
        assert forall|i: int| 0 <= i < t.len() implies #[trigger] t[i].0 != node_text(last.0) by {
            assert(node_text(pairs[i].0) != node_text(pairs[pairs.len() - 1].0));
        }
        lemma_insert_new_key(t, node_text(last.0), node_text(last.1));
        assert(t.push((node_text(last.0), node_text(last.1))) =~= Seq::new(
            pairs.len(),
            |i: int| (node_text(pairs[i].0), node_text(pairs[i].1)),
        ));
    }
}

/// Lists given with distinct text names, each as a sequence of texts, read
/// as exactly those names with exactly those members, in order.
pub proof fn lemma_list_table_read(pairs: Seq<(YamlNode, YamlNode)>)
    requires
        distinct_text_keys(pairs),
        forall|i: int| 0 <= i < pairs.len() ==> (#[trigger] pairs[i].1 matches YamlNode::Array(items) && forall|j: int|
            0 <= j < items@.len() ==> #[trigger] items@[j] is Str),
    ensures
        list_table(pairs) == Ok::<_, ConfigError>(
            Seq::new(pairs.len(), |i: int| (node_text(pairs[i].0), node_texts(pairs[i].1->Array_0@))),
        ),
    decreases pairs.len(),
{
    if pairs.len() == 0 {
        assert(Seq::new(pairs.len(), |i: int| (node_text(pairs[i].0), node_texts(pairs[i].1->Array_0@))) =~= Seq::<(Seq<char>, Seq<Seq<char>>)>::empty());
    } else {
        let d = pairs.drop_last();
        assert forall|i: int| 0 <= i < d.len() implies #[trigger] d[i].0 is Str by {
            assert(pairs[i].0 is Str);
        }
        assert forall|i: int, j: int| 0 <= i < j < d.len() implies node_text(#[trigger] d[i].0) != node_text(#[trigger] d[j].0) by {
            assert(node_text(pairs[i].0) != node_text(pairs[j].0));
        }
        assert forall|i: int| 0 <= i < d.len() implies (#[trigger] d[i].1 matches YamlNode::Array(items) && forall|j: int|
            0 <= j < items@.len() ==> #[trigger] items@[j] is Str) by {
            assert(d[i] == pairs[i]);
        }
        lemma_list_table_read(d);
        let t = Seq::new(d.len(), |i: int| (node_text(d[i].0), node_texts(d[i].1->Array_0@)));
        let last = pairs.last();
        assert(last.0 is Str) by {
            assert(pairs[pairs.len() - 1].0 is Str);
        }
        assert(last.1 matches YamlNode::Array(items) && forall|j: int| 0 <= j < items@.len() ==> #[trigger] items@[j] is Str) by {
            assert(pairs[pairs.len() - 1] == last);
        }
        lemma_members_of_sequence(last.1);
        assert forall|i: int| 0 <= i < t.len() implies #[trigger] t[i].0 != node_text(last.0) by {
            assert(node_text(pairs[i].0) != node_text(pairs[pairs.len() - 1].0));
        }
        lemma_insert_new_key(t, node_text(last.0), node_texts(last.1->Array_0@));
        assert(t.push((node_text(last.0), node_texts(last.1->Array_0@))) =~= Seq::new(
            pairs.len(),
            |i: int| (node_text(pairs[i].0), node_texts(pairs[i].1->Array_0@)),
        ));
    }
}


/// A first document that gives repositories with distinct text names and
/// text paths, lists with distinct text names and text members, and the key
/// files and signature as texts reads as exactly that configuration: the
/// repositories and lists in the order given, and each of the four texts in
/// its own field.
pub proof fn lemma_config_read(
    docs: Seq<YamlNode>,
    rp: Vec<(YamlNode, YamlNode)>,
    lp: Vec<(YamlNode, YamlNode)>,
    a: String,
    b: String,
    c: String,
    d: String,
)
    requires
        docs.len() > 0,
        index_node(docs[0], "repos"@) == Some(YamlNode::Hash(rp)),
        distinct_text_keys(rp@),
        forall|i: int| 0 <= i < rp@.len() ==> #[trigger] rp@[i].1 is Str,
        index_node(docs[0], "lists"@) == Some(YamlNode::Hash(lp)),
        distinct_text_keys(lp@),
        forall|i: int| 0 <= i < lp@.len() ==> (#[trigger] lp@[i].1 matches YamlNode::Array(items) && forall|j: int|
            0 <= j < items@.len() ==> #[trigger] items@[j] is Str),
        index_node(docs[0], "ssh_priv"@) == Some(YamlNode::Str(a)),
        index_node(docs[0], "ssh_pub"@) == Some(YamlNode::Str(b)),
        index_node(docs[0], "signature_name"@) == Some(YamlNode::Str(c)),
        index_node(docs[0], "signature_mail"@) == Some(YamlNode::Str(d)),
    ensures
        config_of(docs) == Ok::<_, ConfigError>(
            (ConfigView {
                repos: Seq::new(rp@.len(), |i: int| (node_text(rp@[i].0), node_text(rp@[i].1))),
                lists: Seq::new(lp@.len(), |i: int| (node_text(lp@[i].0), node_texts(lp@[i].1->Array_0@))),
                ssh_priv: a@,
                ssh_pub: b@,
                signature_name: c@,
                signature_mail: d@,
            }),
        ),
{
    lemma_repo_table_read(rp@);
    lemma_list_table_read(lp@);
}

} // verus!
