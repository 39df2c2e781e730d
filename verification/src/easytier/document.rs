//! The configuration document that the engine reads.
//!
//! The settings of a session are laid out as a TOML document: two tables,
//! `flags` and `network_identity`, five arrays, and up to three values at the
//! top. The tables are `toml` tables and the text is written by `toml`; what
//! this module proves is which document is handed to it.

use vstd::prelude::*;
use crate::easytier::argument::Argument;
use crate::easytier::config::{configuration, lemma_configuration_deterministic, same_intents, Config,
    Forward, ForwardEntry, Settings};

verus! {

/// A value of a document, as mathematics.
pub enum Node {
    Flag(bool),
    Number(int),
    Text(Seq<char>),
    List(Seq<Node>),
    Section(Map<Seq<char>, Node>),
}

/// `toml::map::Map`, the type behind `toml::Table`. Nothing is known of a
/// table but what the functions below say of its entries.
#[verifier::external_type_specification]
#[verifier::external_body]
#[verifier::reject_recursive_types(K)]
#[verifier::reject_recursive_types(V)]
pub struct ExTomlMap<K, V>(toml::map::Map<K, V>);

/// `toml::Value`, of which a table is made. It is never looked into.
#[verifier::external_type_specification]
#[verifier::external_body]
pub struct ExTomlValue(toml::Value);

/// `toml::ser::Error`, the reason `toml` gives for not writing a document.
/// It is never looked into.
#[verifier::external_type_specification]
#[verifier::external_body]
pub struct ExTomlSerError(toml::ser::Error);

/// A table without entries.
pub open spec fn no_entries() -> Map<Seq<char>, Node> {
    Map::empty()
}

/// The entries of a `toml` table: what stands under each of its keys. Only
/// booleans, integers, strings, arrays and tables are ever put into one here.
pub uninterp spec fn table_entries(table: toml::Table) -> Map<Seq<char>, Node>;

/// What `toml` makes of a table with the given entries: the text it writes,
/// or nothing where it refuses to write one. A table keeps its keys in their
/// order as strings, whatever the order in which they were set, so both
/// follow from the entries alone.
pub uninterp spec fn toml_text(entries: Map<Seq<char>, Node>) -> Option<Seq<char>>;

/// A list of strings as the values of an array.
pub open spec fn text_nodes(items: Seq<Seq<char>>) -> Seq<Node> {
    items.map_values(|t: Seq<char>| Node::Text(t))
}

/// A list of tables as the values of an array.
pub open spec fn section_nodes(items: Seq<toml::Table>) -> Seq<Node> {
    items.map_values(|t: toml::Table| Node::Section(table_entries(t)))
}

/// The views of a list of strings.
pub open spec fn string_views(items: Seq<String>) -> Seq<Seq<char>> {
    items.map_values(|s: String| s@)
}

/// `toml::Table::new`: a table without entries.
#[verifier::external_body]
fn table_new() -> (table: toml::Table)
    ensures
        table_entries(table) == no_entries(),
{
    toml::Table::new()
}

/// `toml::Table::insert` with a boolean: the key then holds it, whatever it
/// held before, and no other key changes.
#[verifier::external_body]
fn table_set_flag(table: &mut toml::Table, key: &str, value: bool)
    ensures
        table_entries(*final(table)) == table_entries(*old(table)).insert(key@, Node::Flag(value)),
{
    table.insert(key.to_string(), toml::Value::Boolean(value));
}

/// `toml::Table::insert` with an integer.
#[verifier::external_body]
fn table_set_number(table: &mut toml::Table, key: &str, value: i64)
    ensures
        table_entries(*final(table)) == table_entries(*old(table)).insert(
            key@,
            Node::Number(value as int),
        ),
{
    table.insert(key.to_string(), toml::Value::Integer(value));
}

/// `toml::Table::insert` with a string.
#[verifier::external_body]
fn table_set_text(table: &mut toml::Table, key: &str, value: &str)
    ensures
        table_entries(*final(table)) == table_entries(*old(table)).insert(key@, Node::Text(value@)),
{
    table.insert(key.to_string(), toml::Value::String(value.to_string()));
}

/// `toml::Table::insert` with a table.
#[verifier::external_body]
fn table_set_section(table: &mut toml::Table, key: &str, value: toml::Table)
    ensures
        table_entries(*final(table)) == table_entries(*old(table)).insert(
            key@,
            Node::Section(table_entries(value)),
        ),
{
    table.insert(key.to_string(), toml::Value::Table(value));
}

/// `toml::Table::insert` with an array of strings, in the order given.
#[verifier::external_body]
fn table_set_texts(table: &mut toml::Table, key: &str, items: &Vec<String>)
    ensures
        table_entries(*final(table)) == table_entries(*old(table)).insert(
            key@,
            Node::List(text_nodes(string_views(items@))),
        ),
{
    table.insert(
        key.to_string(),
        toml::Value::Array(items.iter().cloned().map(toml::Value::String).collect()),
    );
}

/// `toml::Table::insert` with an array of tables, in the order given.
#[verifier::external_body]
fn table_set_sections(table: &mut toml::Table, key: &str, items: Vec<toml::Table>)
    ensures
        table_entries(*final(table)) == table_entries(*old(table)).insert(
            key@,
            Node::List(section_nodes(items@)),
        ),
{
    table.insert(
        key.to_string(),
        toml::Value::Array(items.into_iter().map(toml::Value::Table).collect()),
    );
}

/// `toml::to_string` on a table: the outcome is the one that `toml` has for
/// these entries, a text or a refusal. On which entries it refuses is not
/// said.
#[verifier::external_body]
fn table_render(table: &toml::Table) -> (out: Result<String, toml::ser::Error>)
    ensures
        out matches Ok(text) ==> toml_text(table_entries(*table)) == Some(text@),
        out is Err ==> toml_text(table_entries(*table)) is None,
{
    toml::to_string(table)
}

/// `m` with `key` set to true if `set`, else `m`.
pub open spec fn with_flag(m: Map<Seq<char>, Node>, key: Seq<char>, set: bool) -> Map<
    Seq<char>,
    Node,
> {
    if set {
        m.insert(key, Node::Flag(true))
    } else {
        m
    }
}

/// `m` with `key` set to the text if there is one, else `m`.
pub open spec fn with_text(m: Map<Seq<char>, Node>, key: Seq<char>, text: Option<Seq<char>>) -> Map<
    Seq<char>,
    Node,
> {
    match text {
        Some(t) => m.insert(key, Node::Text(t)),
        None => m,
    }
}

/// The table `flags`: each flag that is set, and the compression if one was
/// chosen.
pub open spec fn flags_section(c: Config) -> Map<Seq<char>, Node> {
    let m = with_flag(no_entries(), "no_tun"@, c.no_tun);
    let m = match c.compression {
        Some(n) => m.insert("data_compress_algo"@, Node::Number(n)),
        None => m,
    };
    let m = with_flag(m, "multi_thread"@, c.multi_thread);
    let m = with_flag(m, "latency_first"@, c.latency_first);
    let m = with_flag(m, "enable_kcp_proxy"@, c.enable_kcp_proxy);
    with_flag(m, "p2p_only"@, c.p2p_only)
}

/// The table `network_identity`: the name and the secret, as far as given.
pub open spec fn identity_section(c: Config) -> Map<Seq<char>, Node> {
    let m = with_text(no_entries(), "network_name"@, c.network_name);
    with_text(m, "network_secret"@, c.network_secret)
}

/// One peer: a table with its address under `uri`.
pub open spec fn peer_node(uri: Seq<char>) -> Node {
    Node::Section(no_entries().insert("uri"@, Node::Text(uri)))
}

/// One forwarding rule: a table with its two addresses and its protocol.
pub open spec fn forward_node(rule: Forward) -> Node {
    Node::Section(
        no_entries().insert("bind_addr"@, Node::Text(rule.bind_addr)).insert(
            "dst_addr"@,
            Node::Text(rule.dst_addr),
        ).insert("proto"@, Node::Text(rule.proto)),
    )
}

/// The whole document of the given settings.
pub open spec fn document(c: Config) -> Map<Seq<char>, Node> {
    let m = no_entries().insert("flags"@, Node::Section(flags_section(c)));
    let m = m.insert("network_identity"@, Node::Section(identity_section(c)));
    let m = m.insert("listeners"@, Node::List(text_nodes(c.listeners)));
    let m = m.insert("peer"@, Node::List(c.peers.map_values(|uri: Seq<char>| peer_node(uri))));
    let m = m.insert(
        "port_forward"@,
        Node::List(c.forwards.map_values(|rule: Forward| forward_node(rule))),
    );
    let m = m.insert("tcp_whitelist"@, Node::List(text_nodes(c.tcp_whitelist)));
    let m = m.insert("udp_whitelist"@, Node::List(text_nodes(c.udp_whitelist)));
    let m = with_flag(m, "dhcp"@, c.dhcp);
    let m = with_text(m, "hostname"@, c.hostname);
    with_text(m, "ipv4"@, c.ipv4)
}

/// Two lists of intents that say the same are written as the same text,
/// byte for byte.
pub proof fn lemma_document_deterministic(a: Seq<Argument>, b: Seq<Argument>)
    requires
        same_intents(a, b),
    ensures
        document(configuration(a)) == document(configuration(b)),
        toml_text(document(configuration(a))) == toml_text(document(configuration(b))),
{
    lemma_configuration_deterministic(a, b);
}

/// Why a configuration could not be written.
#[derive(Clone, Copy, Debug, PartialEq, Eq, Structural)]
pub enum ConfigError {
    /// `toml` refused to write the document.
    NotSerializable,
}

/// The text of an outcome, if it is one.
pub open spec fn written(outcome: Result<String, ConfigError>) -> Option<Seq<char>> {
    match outcome {
        Ok(text) => Some(text@),
        Err(_) => None,
    }
}

/// What the builder makes of the outcome of writing the document: the text,
/// or `NotSerializable` whatever the reason `toml` gave.
pub fn accept_rendering(outcome: Result<String, toml::ser::Error>) -> (out: Result<
    String,
    ConfigError,
>)
    ensures
        outcome matches Ok(text) ==> out == Ok::<String, ConfigError>(text),
        outcome is Err ==> out == Err::<String, ConfigError>(ConfigError::NotSerializable),
{
    match outcome {
        Ok(text) => Ok(text),
        Err(_) => Err(ConfigError::NotSerializable),
    }
}

fn set_flag_if(table: &mut toml::Table, key: &str, set: bool)
    ensures
        table_entries(*final(table)) == with_flag(table_entries(*old(table)), key@, set),
{
    if set {
        table_set_flag(table, key, true);
    }
}

fn set_text_if(table: &mut toml::Table, key: &str, text: &Option<String>)
    ensures
        table_entries(*final(table)) == with_text(
            table_entries(*old(table)),
            key@,
            crate::easytier::config::optional_text(*text),
        ),
{
    match text {
        Some(t) => {
            table_set_text(table, key, t.as_str());
        },
        None => {},
    }
}

fn flags_table(settings: &Settings) -> (table: toml::Table)
    ensures
        table_entries(table) == flags_section(settings@),
{
    let mut table = table_new();
    set_flag_if(&mut table, "no_tun", settings.no_tun);
    match settings.compression {
        Some(n) => {
            table_set_number(&mut table, "data_compress_algo", n);
        },
        None => {},
    }
    set_flag_if(&mut table, "multi_thread", settings.multi_thread);
    set_flag_if(&mut table, "latency_first", settings.latency_first);
    set_flag_if(&mut table, "enable_kcp_proxy", settings.enable_kcp_proxy);
    set_flag_if(&mut table, "p2p_only", settings.p2p_only);
    table
}

fn identity_table(settings: &Settings) -> (table: toml::Table)
    ensures
        table_entries(table) == identity_section(settings@),
{
    let mut table = table_new();
    set_text_if(&mut table, "network_name", &settings.network_name);
    set_text_if(&mut table, "network_secret", &settings.network_secret);
    table
}

fn peer_tables(peers: &Vec<String>) -> (tables: Vec<toml::Table>)
    ensures
        section_nodes(tables@) == string_views(peers@).map_values(|uri: Seq<char>| peer_node(uri)),
{
    let mut tables: Vec<toml::Table> = Vec::new();
    let mut i: usize = 0;
    while i < peers.len()
        invariant
            i <= peers.len(),
            tables@.len() == i,
            forall|j: int|
                0 <= j < i ==> Node::Section(table_entries(#[trigger] tables@[j])) == peer_node(
                    peers@[j]@,
                ),
        decreases peers.len() - i,
    {
        let mut table = table_new();
        table_set_text(&mut table, "uri", peers[i].as_str());
        tables.push(table);
        i += 1;
    }
    assert(section_nodes(tables@) =~= string_views(peers@).map_values(
        |uri: Seq<char>| peer_node(uri),
    ));
    tables
}

fn forward_tables(rules: &Vec<ForwardEntry>) -> (tables: Vec<toml::Table>)
    ensures
        section_nodes(tables@) == crate::easytier::config::forwards(rules@).map_values(
            |rule: Forward| forward_node(rule),
        ),
{
    let mut tables: Vec<toml::Table> = Vec::new();
    let mut i: usize = 0;
    while i < rules.len()
        invariant
            i <= rules.len(),
            tables@.len() == i,
            forall|j: int|
                0 <= j < i ==> Node::Section(table_entries(#[trigger] tables@[j])) == forward_node(
                    rules@[j]@,
                ),
        decreases rules.len() - i,
    {
        let mut table = table_new();
        table_set_text(&mut table, "bind_addr", rules[i].bind_addr.as_str());
        table_set_text(&mut table, "dst_addr", rules[i].dst_addr.as_str());
        table_set_text(&mut table, "proto", rules[i].proto.as_str());
        tables.push(table);
        i += 1;
    }
    assert(section_nodes(tables@) =~= crate::easytier::config::forwards(rules@).map_values(
        |rule: Forward| forward_node(rule),
    ));
    tables
}

/// Writes the settings as the text of their document.
///
/// The outcome is what `toml` makes of exactly the document of these
/// settings: its text where it writes one, and `NotSerializable` where it
/// refuses.
pub fn render(settings: &Settings) -> (out: Result<String, ConfigError>)
    ensures
        written(out) == toml_text(document(settings@)),
        out matches Err(e) ==> e == ConfigError::NotSerializable,
{
    let mut root = table_new();
    table_set_section(&mut root, "flags", flags_table(settings));
    table_set_section(&mut root, "network_identity", identity_table(settings));
    table_set_texts(&mut root, "listeners", &settings.listeners);
    table_set_sections(&mut root, "peer", peer_tables(&settings.peers));
    table_set_sections(&mut root, "port_forward", forward_tables(&settings.forwards));
    table_set_texts(&mut root, "tcp_whitelist", &settings.tcp_whitelist);
    table_set_texts(&mut root, "udp_whitelist", &settings.udp_whitelist);
    set_flag_if(&mut root, "dhcp", settings.dhcp);
    set_text_if(&mut root, "hostname", &settings.hostname);
    set_text_if(&mut root, "ipv4", &settings.ipv4);
    assert(table_entries(root) == document(settings@));
    accept_rendering(table_render(&root))
}

} // verus!
