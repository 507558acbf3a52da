//! The configuration loader's verified core.
//!
//! A configuration document is line-oriented text: blank lines and lines
//! whose first non-space character is `#` are skipped; every other line must
//! be `key: value`, with spaces around key and value ignored. A list-valued
//! field writes its items on one line, separated by commas, empty items
//! dropped. Reading the file itself is the runtime's job; this module turns
//! the text into typed option records, and says exactly which text is
//! accepted and what each field comes out as.

use vstd::prelude::*;
use vstd::string::StrSliceExecFns;

use crate::text::{
    all_digits, dec_value, find_from, first_index_of, lemma_first_index_of_is, parse_u64_dec,
    spec_split, spec_trim, split_str, trim_str,
};

verus! {

/// A field of one of the option records, named in errors.
#[derive(Debug, Clone, Copy, PartialEq, Eq, Structural)]
pub enum ConfigField {
    /// MQTT client identifier.
    Id,
    /// Server host name or address.
    Host,
    /// Server port.
    Port,
    /// MQTT user name.
    UserName,
    /// MQTT password.
    PassWord,
    /// Capacity of the bounded event channel.
    ChannelCap,
    /// Topics to subscribe to.
    Subscribes,
    /// Database user name.
    User,
    /// Database password.
    Password,
    /// Database name.
    DbName,
    /// Prepared-statement cache size.
    StmtCacheSize,
    /// Connection pool minimum size.
    PoolMin,
    /// Connection pool maximum size.
    PoolMax,
    /// Database index.
    Db,
}

/// Why a configuration text was rejected.
#[derive(Debug, Clone, Copy, PartialEq, Eq, Structural)]
pub enum ConfigError {
    /// This line is neither skippable nor a `key: value` pair.
    MalformedLine(usize),
    /// A required field has no pair in the document.
    Missing(ConfigField),
    /// The field's value is not an unsigned decimal number in range.
    BadNumber(ConfigField),
    /// A field value breaks a validity rule of its record.
    Invalid(ConfigField),
}

/// Whether the line is skipped: blank, or a comment starting with `#`.
pub open spec fn line_skipped(l: Seq<char>) -> bool {
    spec_trim(l).len() == 0 || spec_trim(l)[0] == '#'
}

/// Whether the line holds a colon, making it a `key: value` pair.
pub open spec fn line_has_colon(l: Seq<char>) -> bool {
    first_index_of(l, ':') < l.len()
}

/// The pair's key: everything before the first colon, trimmed.
pub open spec fn line_key(l: Seq<char>) -> Seq<char> {
    spec_trim(l.take(first_index_of(l, ':')))
}

/// The pair's value: everything after the first colon, trimmed.
pub open spec fn line_value(l: Seq<char>) -> Seq<char> {
    spec_trim(l.skip(first_index_of(l, ':') + 1))
}

/// Whether every line of the document is either skipped or a pair.
pub open spec fn doc_ok(text: Seq<char>) -> bool {
    forall|i: int|
        0 <= i < spec_split(text, '\n').len() ==> line_skipped(#[trigger] spec_split(text, '\n')[i])
            || line_has_colon(spec_split(text, '\n')[i])
}

/// The key/value pairs of the document's lines, in order, skipped lines left
/// out.
pub open spec fn spec_pairs(lines: Seq<Seq<char>>) -> Seq<(Seq<char>, Seq<char>)>
    decreases lines.len(),
{
    if lines.len() == 0 {
        Seq::empty()
    } else {
        let rest = spec_pairs(lines.drop_first());
        if line_skipped(lines[0]) || !line_has_colon(lines[0]) {
            rest
        } else {
            seq![(line_key(lines[0]), line_value(lines[0]))] + rest
        }
    }
}

/// The value of the first pair with this key, if any.
pub open spec fn spec_lookup(ps: Seq<(Seq<char>, Seq<char>)>, key: Seq<char>) -> Option<Seq<char>>
    decreases ps.len(),
{
    if ps.len() == 0 {
        None
    } else if ps[0].0 == key {
        Some(ps[0].1)
    } else {
        spec_lookup(ps.drop_first(), key)
    }
}

/// The document's pairs, straight from the text.
pub open spec fn doc_pairs(text: Seq<char>) -> Seq<(Seq<char>, Seq<char>)> {
    spec_pairs(spec_split(text, '\n'))
}

/// The first value the document gives this key, if any.
pub open spec fn doc_lookup(text: Seq<char>, key: Seq<char>) -> Option<Seq<char>> {
    spec_lookup(doc_pairs(text), key)
}

proof fn lemma_spec_pairs_concat(l1: Seq<Seq<char>>, l2: Seq<Seq<char>>)
    ensures
        spec_pairs(l1 + l2) == spec_pairs(l1) + spec_pairs(l2),
    decreases l1.len(),
{
    if l1.len() == 0 {
        assert(l1 + l2 =~= l2);
        assert(spec_pairs(l1) + spec_pairs(l2) =~= spec_pairs(l2));
    } else {
        assert((l1 + l2).drop_first() =~= l1.drop_first() + l2);
        lemma_spec_pairs_concat(l1.drop_first(), l2);
        assert((l1 + l2)[0] == l1[0]);
        if !(line_skipped(l1[0]) || !line_has_colon(l1[0])) {
            assert(seq![(line_key(l1[0]), line_value(l1[0]))] + (spec_pairs(l1.drop_first())
                + spec_pairs(l2)) =~= (seq![(line_key(l1[0]), line_value(l1[0]))] + spec_pairs(
                l1.drop_first(),
            )) + spec_pairs(l2));
        }
    }
}

/// One parsed `key: value` line.
struct ConfigPair {
    key: String,
    value: String,
}

/// A parsed configuration document: its pairs, in order.
pub struct ConfigDoc {
    pairs: Vec<ConfigPair>,
}

impl ConfigDoc {
    /// The pairs, as mathematical sequences.
    pub closed spec fn pairs_spec(&self) -> Seq<(Seq<char>, Seq<char>)> {
        Seq::new(self.pairs@.len(), |i: int| (self.pairs@[i].key@, self.pairs@[i].value@))
    }

    /// The value of the first pair with this key, cloned out.
    pub fn lookup(&self, key: &str) -> (r: Option<String>)
        ensures
            match r {
                Some(v) => spec_lookup(self.pairs_spec(), key@) == Some(v@),
                None => spec_lookup(self.pairs_spec(), key@) is None,
            },
    {
        let k: String = key.to_owned();
        let n = self.pairs.len();
        proof {
            assert(self.pairs_spec().skip(0) =~= self.pairs_spec());
        }
        for i in 0..n
            invariant
                k@ == key@,
                n == self.pairs@.len(),
                spec_lookup(self.pairs_spec(), key@) == spec_lookup(
                    self.pairs_spec().skip(i as int),
                    key@,
                ),
        {
            proof {
                assert(self.pairs_spec().skip(i as int)[0] == self.pairs_spec()[i as int]);
                assert(self.pairs_spec().skip(i as int).drop_first() =~= self.pairs_spec().skip(
                    i + 1,
                ));
            }
            if self.pairs[i].key == k {
                return Some(self.pairs[i].value.clone());
            }
        }
        None
    }
}

/// Parses a configuration text into its pairs; rejects the first line that is
/// neither skippable nor a `key: value` pair.
pub fn parse_config(text: &str) -> (r: Result<ConfigDoc, ConfigError>)
    ensures
        match r {
            Ok(doc) => doc_ok(text@) && doc.pairs_spec() == doc_pairs(text@),
            Err(e) => {
                &&& !doc_ok(text@)
                &&& match e {
                    ConfigError::MalformedLine(i) => {
                        let lines = spec_split(text@, '\n');
                        &&& (i as int) < lines.len()
                        &&& !line_skipped(lines[i as int])
                        &&& !line_has_colon(lines[i as int])
                    },
                    _ => false,
                }
            },
        },
{
    let lines = split_str(text, '\n');
    let ghost lseq = spec_split(text@, '\n');
    let mut pairs: Vec<ConfigPair> = Vec::new();
    let n = lines.len();
    proof {
        assert(lines.deep_view().len() == lines@.len());
    }
    for i in 0..n
        invariant
            n == lines@.len(),
            lines.deep_view() == lseq,
            lseq == spec_split(text@, '\n'),
            forall|j: int|
                0 <= j < i ==> line_skipped(#[trigger] lseq[j]) || line_has_colon(lseq[j]),
            Seq::new(pairs@.len(), |k: int| (pairs@[k].key@, pairs@[k].value@)) == spec_pairs(
                lseq.take(i as int),
            ),
    {
        let line: &String = &lines[i];
        proof {
            assert(lines.deep_view()[i as int] == lines@[i as int]@);
            assert(lseq.take(i + 1).drop_last() =~= lseq.take(i as int));
            assert(lseq.take(i + 1) =~= lseq.take(i as int) + seq![lseq[i as int]]);
        }
        let trimmed = trim_str(line.as_str());
        let t_len = trimmed.as_str().unicode_len();
        let skipped = if t_len == 0 {
            true
        } else {
            trimmed.as_str().get_char(0) == '#'
        };
        let ghost one = seq![lseq[i as int]];
        proof {
            lemma_spec_pairs_concat(lseq.take(i as int), one);
            assert(one.drop_first() =~= Seq::<Seq<char>>::empty());
            assert(spec_pairs(one.drop_first()) == Seq::<(Seq<char>, Seq<char>)>::empty());
        }
        if skipped {
            proof {
                assert(line_skipped(lseq[i as int]));
                assert(spec_pairs(one) =~= Seq::<(Seq<char>, Seq<char>)>::empty());
                assert(spec_pairs(lseq.take(i + 1)) =~= spec_pairs(lseq.take(i as int)));
            }
        } else {
            let line_len = line.as_str().unicode_len();
            let colon = find_from(line.as_str(), ':', 0);
            proof {
                lemma_first_index_of_is(line@, ':', colon as int);
            }
            if colon == line_len {
                proof {
                    assert(!line_skipped(lseq[i as int]));
                    assert(!line_has_colon(lseq[i as int]));
                }
                return Err(ConfigError::MalformedLine(i));
            }
            let key = trim_str(line.as_str().substring_char(0, colon));
            let value = trim_str(line.as_str().substring_char(colon + 1, line_len));
            proof {
                assert(line@.subrange(0, colon as int) =~= line@.take(colon as int));
                assert(line@.subrange(colon + 1, line@.len() as int) =~= line@.skip(colon + 1));
            }
            pairs.push(ConfigPair { key, value });
            proof {
                assert(line_has_colon(lseq[i as int]));
                assert(spec_pairs(one) =~= seq![
                    (line_key(lseq[i as int]), line_value(lseq[i as int])),
                ]);
                assert(Seq::new(pairs@.len(), |k: int| (pairs@[k].key@, pairs@[k].value@))
                    =~= spec_pairs(lseq.take(i + 1)));
            }
        }
    }
    proof {
        assert(lseq.take(n as int) =~= lseq);
    }
    Ok(ConfigDoc { pairs })
}

/// The items of a comma-separated list value: each piece trimmed, empty
/// pieces dropped.
pub open spec fn trimmed_items(parts: Seq<Seq<char>>) -> Seq<Seq<char>>
    decreases parts.len(),
{
    if parts.len() == 0 {
        Seq::empty()
    } else {
        trimmed_items(parts.drop_last()) + (if spec_trim(parts.last()).len() > 0 {
            seq![spec_trim(parts.last())]
        } else {
            Seq::empty()
        })
    }
}

/// The list a field value spells: split on commas, trimmed, empties dropped.
pub open spec fn spec_items(v: Seq<char>) -> Seq<Seq<char>> {
    trimmed_items(spec_split(v, ','))
}

/// Splits a comma-separated list value into its items, exactly as
/// `spec_items` describes.
pub fn split_items(v: &str) -> (items: Vec<String>)
    ensures
        items.deep_view() == spec_items(v@),
{
    let parts = split_str(v, ',');
    let ghost pseq = spec_split(v@, ',');
    let mut items: Vec<String> = Vec::new();
    let n = parts.len();
    for i in 0..n
        invariant
            n == parts@.len(),
            parts.deep_view() == pseq,
            pseq == spec_split(v@, ','),
            items.deep_view() == trimmed_items(pseq.take(i as int)),
    {
        proof {
            assert(parts.deep_view()[i as int] == parts@[i as int]@);
            assert(pseq.take(i + 1).drop_last() =~= pseq.take(i as int));
            assert(pseq.take(i + 1).last() == pseq[i as int]);
        }
        let t = trim_str(parts[i].as_str());
        if t.as_str().unicode_len() > 0 {
            items.push(t);
            proof {
                assert(items.deep_view() =~= trimmed_items(pseq.take(i + 1)));
            }
        } else {
            proof {
                assert(items.deep_view() =~= trimmed_items(pseq.take(i + 1)));
            }
        }
    }
    proof {
        assert(pseq.take(n as int) =~= pseq);
    }
    items
}

/// The document key that names each field.
pub open spec fn field_key(f: ConfigField) -> Seq<char> {
    match f {
        ConfigField::Id => "id"@,
        ConfigField::Host => "host"@,
        ConfigField::Port => "port"@,
        ConfigField::UserName => "user_name"@,
        ConfigField::PassWord => "pass_word"@,
        ConfigField::ChannelCap => "channel_cap"@,
        ConfigField::Subscribes => "subscribes"@,
        ConfigField::User => "user"@,
        ConfigField::Password => "password"@,
        ConfigField::DbName => "db_name"@,
        ConfigField::StmtCacheSize => "stmt_cache_size"@,
        ConfigField::PoolMin => "pool_min"@,
        ConfigField::PoolMax => "pool_max"@,
        ConfigField::Db => "db"@,
    }
}

/// Whether an optional field value spells an unsigned decimal number that is
/// at most `max`.
pub open spec fn num_field_ok(ov: Option<Seq<char>>, max: nat) -> bool {
    &&& ov is Some
    &&& ov->Some_0.len() > 0
    &&& all_digits(ov->Some_0)
    &&& dec_value(ov->Some_0) <= max
}

/// Looks a numeric field up in the document and parses it, bounded by `max`.
fn get_num(doc: &ConfigDoc, key: &str, field: ConfigField, max: u64) -> (r: Result<
    u64,
    ConfigError,
>)
    ensures
        match r {
            Ok(v) => {
                &&& num_field_ok(spec_lookup(doc.pairs_spec(), key@), max as nat)
                &&& v == dec_value(spec_lookup(doc.pairs_spec(), key@)->Some_0)
                &&& v <= max
            },
            Err(e) => {
                &&& !num_field_ok(spec_lookup(doc.pairs_spec(), key@), max as nat)
                &&& match e {
                    ConfigError::Missing(f) => f == field && spec_lookup(
                        doc.pairs_spec(),
                        key@,
                    ) is None,
                    ConfigError::BadNumber(f) => f == field && spec_lookup(
                        doc.pairs_spec(),
                        key@,
                    ) is Some,
                    _ => false,
                }
            },
        },
{
    match doc.lookup(key) {
        Some(v) => match parse_u64_dec(v.as_str()) {
            Some(n) => if n <= max {
                Ok(n)
            } else {
                Err(ConfigError::BadNumber(field))
            },
            None => Err(ConfigError::BadNumber(field)),
        },
        None => Err(ConfigError::Missing(field)),
    }
}

/// The MQTT client configuration: endpoint, credentials, the bounded
/// channel's capacity, and the topics to subscribe to at connect time.
#[derive(Debug, Clone, PartialEq, Eq)]
pub struct MqttClientOptions {
    /// Client identifier.
    pub id: String,
    /// Server host name or address.
    pub host: String,
    /// Server port.
    pub port: u16,
    /// User name.
    pub user_name: String,
    /// Password.
    pub pass_word: String,
    /// Capacity of the bounded event channel.
    pub channel_cap: usize,
    /// Topics to subscribe to.
    pub subscribes: Vec<String>,
}

/// Whether a configuration text spells a complete MQTT client configuration.
pub open spec fn mqtt_text_ok(text: Seq<char>) -> bool {
    &&& doc_ok(text)
    &&& doc_lookup(text, field_key(ConfigField::Id)) is Some
    &&& doc_lookup(text, field_key(ConfigField::Host)) is Some
    &&& num_field_ok(doc_lookup(text, field_key(ConfigField::Port)), u16::MAX as nat)
    &&& doc_lookup(text, field_key(ConfigField::UserName)) is Some
    &&& doc_lookup(text, field_key(ConfigField::PassWord)) is Some
    &&& num_field_ok(doc_lookup(text, field_key(ConfigField::ChannelCap)), usize::MAX as nat)
    &&& doc_lookup(text, field_key(ConfigField::Subscribes)) is Some
}

impl MqttClientOptions {
    /// The rules a loaded configuration must meet: a client identifier and a
    /// host, a nonzero port, and room for at least one buffered event.
    pub open spec fn valid_spec(&self) -> bool {
        &&& self.id@.len() > 0
        &&& self.host@.len() > 0
        &&& self.port >= 1
        &&& self.channel_cap >= 1
    }

    /// Reads the configuration out of a document text; succeeds exactly on
    /// the texts `mqtt_text_ok` accepts, and each field comes from its pair.
    pub fn from_file(contents: &str) -> (r: Result<MqttClientOptions, ConfigError>)
        ensures
            r is Ok <==> mqtt_text_ok(contents@),
            match r {
                Ok(o) => {
                    &&& Some(o.id@) == doc_lookup(contents@, field_key(ConfigField::Id))
                    &&& Some(o.host@) == doc_lookup(contents@, field_key(ConfigField::Host))
                    &&& o.port == dec_value(
                        doc_lookup(contents@, field_key(ConfigField::Port))->Some_0,
                    )
                    &&& Some(o.user_name@) == doc_lookup(
                        contents@,
                        field_key(ConfigField::UserName),
                    )
                    &&& Some(o.pass_word@) == doc_lookup(
                        contents@,
                        field_key(ConfigField::PassWord),
                    )
                    &&& o.channel_cap == dec_value(
                        doc_lookup(contents@, field_key(ConfigField::ChannelCap))->Some_0,
                    )
                    &&& o.subscribes.deep_view() == spec_items(
                        doc_lookup(contents@, field_key(ConfigField::Subscribes))->Some_0,
                    )
                },
                Err(e) => match e {
                    ConfigError::MalformedLine(i) => {
                        let lines = spec_split(contents@, '\n');
                        &&& !doc_ok(contents@)
                        &&& (i as int) < lines.len()
                        &&& !line_skipped(lines[i as int])
                        &&& !line_has_colon(lines[i as int])
                    },
                    ConfigError::Missing(f) => doc_ok(contents@) && doc_lookup(
                        contents@,
                        field_key(f),
                    ) is None,
                    ConfigError::BadNumber(f) => doc_ok(contents@) && doc_lookup(
                        contents@,
                        field_key(f),
                    ) is Some && (f == ConfigField::Port || f == ConfigField::ChannelCap),
                    ConfigError::Invalid(_) => false,
                },
            },
    {
        let doc = match parse_config(contents) {
            Ok(d) => d,
            Err(e) => {
                return Err(e);
            },
        };
        let id = match doc.lookup("id") {
            Some(v) => v,
            None => {
                return Err(ConfigError::Missing(ConfigField::Id));
            },
        };
        let host = match doc.lookup("host") {
            Some(v) => v,
            None => {
                return Err(ConfigError::Missing(ConfigField::Host));
            },
        };
        let port64 = match get_num(&doc, "port", ConfigField::Port, 65535u64) {
            Ok(v) => v,
            Err(e) => {
                return Err(e);
            },
        };
        let user_name = match doc.lookup("user_name") {
            Some(v) => v,
            None => {
                return Err(ConfigError::Missing(ConfigField::UserName));
            },
        };
        let pass_word = match doc.lookup("pass_word") {
            Some(v) => v,
            None => {
                return Err(ConfigError::Missing(ConfigField::PassWord));
            },
        };
        let cap64 = match get_num(&doc, "channel_cap", ConfigField::ChannelCap, usize::MAX as u64) {
            Ok(v) => v,
            Err(e) => {
                return Err(e);
            },
        };
        let subs_v = match doc.lookup("subscribes") {
            Some(v) => v,
            None => {
                return Err(ConfigError::Missing(ConfigField::Subscribes));
            },
        };
        let subscribes = split_items(subs_v.as_str());
        Ok(
            MqttClientOptions {
                id,
                host,
                port: port64 as u16,
                user_name,
                pass_word,
                channel_cap: cap64 as usize,
                subscribes,
            },
        )
    }

    /// Checks the validity rules; `Ok` exactly when `valid_spec` holds, and
    /// the error names the first rule broken.
    pub fn validate(&self) -> (r: Result<(), ConfigError>)
        ensures
            r is Ok <==> self.valid_spec(),
            match r {
                Ok(_) => true,
                Err(e) => match e {
                    ConfigError::Invalid(f) => (f == ConfigField::Id && self.id@.len() == 0) || (f
                        == ConfigField::Host && self.host@.len() == 0) || (f == ConfigField::Port
                        && self.port == 0) || (f == ConfigField::ChannelCap && self.channel_cap
                        == 0),
                    _ => false,
                },
            },
    {
        if self.id.as_str().unicode_len() == 0 {
            return Err(ConfigError::Invalid(ConfigField::Id));
        }
        if self.host.as_str().unicode_len() == 0 {
            return Err(ConfigError::Invalid(ConfigField::Host));
        }
        if self.port == 0 {
            return Err(ConfigError::Invalid(ConfigField::Port));
        }
        if self.channel_cap == 0 {
            return Err(ConfigError::Invalid(ConfigField::ChannelCap));
        }
        Ok(())
    }
}

/// The MySQL connection-pool configuration.
#[derive(Debug, Clone, PartialEq, Eq)]
pub struct MySQLOptions {
    /// Server host name or address.
    pub host: String,
    /// Server port.
    pub port: u16,
    /// User name.
    pub user: String,
    /// Password.
    pub password: String,
    /// Database name.
    pub db_name: String,
    /// Prepared-statement cache size.
    pub stmt_cache_size: usize,
    /// Minimum number of pooled connections.
    pub pool_min: usize,
    /// Maximum number of pooled connections.
    pub pool_max: usize,
}

/// Whether a configuration text spells a complete MySQL configuration.
pub open spec fn mysql_text_ok(text: Seq<char>) -> bool {
    &&& doc_ok(text)
    &&& doc_lookup(text, field_key(ConfigField::Host)) is Some
    &&& num_field_ok(doc_lookup(text, field_key(ConfigField::Port)), u16::MAX as nat)
    &&& doc_lookup(text, field_key(ConfigField::User)) is Some
    &&& doc_lookup(text, field_key(ConfigField::Password)) is Some
    &&& doc_lookup(text, field_key(ConfigField::DbName)) is Some
    &&& num_field_ok(doc_lookup(text, field_key(ConfigField::StmtCacheSize)), usize::MAX as nat)
    &&& num_field_ok(doc_lookup(text, field_key(ConfigField::PoolMin)), usize::MAX as nat)
    &&& num_field_ok(doc_lookup(text, field_key(ConfigField::PoolMax)), usize::MAX as nat)
}

impl MySQLOptions {
    /// The rules a loaded configuration must meet: a host, a nonzero port,
    /// and pool bounds that can build a pool — at least one connection, the
    /// minimum no larger than the maximum.
    pub open spec fn valid_spec(&self) -> bool {
        &&& self.host@.len() > 0
        &&& self.port >= 1
        &&& self.pool_max >= 1
        &&& self.pool_min <= self.pool_max
    }

    /// Reads the configuration out of a document text; succeeds exactly on
    /// the texts `mysql_text_ok` accepts, and each field comes from its pair.
    pub fn from_file(contents: &str) -> (r: Result<MySQLOptions, ConfigError>)
        ensures
            r is Ok <==> mysql_text_ok(contents@),
            match r {
                Ok(o) => {
                    &&& Some(o.host@) == doc_lookup(contents@, field_key(ConfigField::Host))
                    &&& o.port == dec_value(
                        doc_lookup(contents@, field_key(ConfigField::Port))->Some_0,
                    )
                    &&& Some(o.user@) == doc_lookup(contents@, field_key(ConfigField::User))
                    &&& Some(o.password@) == doc_lookup(
                        contents@,
                        field_key(ConfigField::Password),
                    )
                    &&& Some(o.db_name@) == doc_lookup(contents@, field_key(ConfigField::DbName))
                    &&& o.stmt_cache_size == dec_value(
                        doc_lookup(contents@, field_key(ConfigField::StmtCacheSize))->Some_0,
                    )
                    &&& o.pool_min == dec_value(
                        doc_lookup(contents@, field_key(ConfigField::PoolMin))->Some_0,
                    )
                    &&& o.pool_max == dec_value(
                        doc_lookup(contents@, field_key(ConfigField::PoolMax))->Some_0,
                    )
                },
                Err(e) => match e {
                    ConfigError::MalformedLine(i) => {
                        let lines = spec_split(contents@, '\n');
                        &&& !doc_ok(contents@)
                        &&& (i as int) < lines.len()
                        &&& !line_skipped(lines[i as int])
                        &&& !line_has_colon(lines[i as int])
                    },
                    ConfigError::Missing(f) => doc_ok(contents@) && doc_lookup(
                        contents@,
                        field_key(f),
                    ) is None,
                    ConfigError::BadNumber(f) => doc_ok(contents@) && doc_lookup(
                        contents@,
                        field_key(f),
                    ) is Some,
                    ConfigError::Invalid(_) => false,
                },
            },
    {
        let doc = match parse_config(contents) {
            Ok(d) => d,
            Err(e) => {
                return Err(e);
            },
        };
        let host = match doc.lookup("host") {
            Some(v) => v,
            None => {
                return Err(ConfigError::Missing(ConfigField::Host));
            },
        };
        let port64 = match get_num(&doc, "port", ConfigField::Port, 65535u64) {
            Ok(v) => v,
            Err(e) => {
                return Err(e);
            },
        };
        let user = match doc.lookup("user") {
            Some(v) => v,
            None => {
                return Err(ConfigError::Missing(ConfigField::User));
            },
        };
        let password = match doc.lookup("password") {
            Some(v) => v,
            None => {
                return Err(ConfigError::Missing(ConfigField::Password));
            },
        };
        let db_name = match doc.lookup("db_name") {
            Some(v) => v,
            None => {
                return Err(ConfigError::Missing(ConfigField::DbName));
            },
        };
        let stmt64 = match get_num(
            &doc,
            "stmt_cache_size",
            ConfigField::StmtCacheSize,
            usize::MAX as u64,
        ) {
            Ok(v) => v,
            Err(e) => {
                return Err(e);
            },
        };
        let min64 = match get_num(&doc, "pool_min", ConfigField::PoolMin, usize::MAX as u64) {
            Ok(v) => v,
            Err(e) => {
                return Err(e);
            },
        };
        let max64 = match get_num(&doc, "pool_max", ConfigField::PoolMax, usize::MAX as u64) {
            Ok(v) => v,
            Err(e) => {
                return Err(e);
            },
        };
        Ok(
            MySQLOptions {
                host,
                port: port64 as u16,
                user,
                password,
                db_name,
                stmt_cache_size: stmt64 as usize,
                pool_min: min64 as usize,
                pool_max: max64 as usize,
            },
        )
    }

    /// Checks the validity rules; `Ok` exactly when `valid_spec` holds, and
    /// the error names the first rule broken.
    pub fn validate(&self) -> (r: Result<(), ConfigError>)
        ensures
            r is Ok <==> self.valid_spec(),
            match r {
                Ok(_) => true,
                Err(e) => match e {
                    ConfigError::Invalid(f) => (f == ConfigField::Host && self.host@.len() == 0)
                        || (f == ConfigField::Port && self.port == 0) || (f == ConfigField::PoolMax
                        && self.pool_max == 0) || (f == ConfigField::PoolMin && self.pool_min
                        > self.pool_max),
                    _ => false,
                },
            },
    {
        if self.host.as_str().unicode_len() == 0 {
            return Err(ConfigError::Invalid(ConfigField::Host));
        }
        if self.port == 0 {
            return Err(ConfigError::Invalid(ConfigField::Port));
        }
        if self.pool_max == 0 {
            return Err(ConfigError::Invalid(ConfigField::PoolMax));
        }
        if self.pool_min > self.pool_max {
            return Err(ConfigError::Invalid(ConfigField::PoolMin));
        }
        Ok(())
    }
}

/// The Redis connection-pool configuration.
#[derive(Debug, Clone, PartialEq, Eq)]
pub struct RedisOptions {
    /// Server host name or address.
    pub host: String,
    /// Server port.
    pub port: u16,
    /// Password, if the server wants one.
    pub password: Option<String>,
    /// Database index.
    pub db: i64,
    /// Minimum number of pooled connections.
    pub pool_min: u32,
    /// Maximum number of pooled connections.
    pub pool_max: u32,
}

/// Whether a configuration text spells a complete Redis configuration; the
/// password is the one optional field.
pub open spec fn redis_text_ok(text: Seq<char>) -> bool {
    &&& doc_ok(text)
    &&& doc_lookup(text, field_key(ConfigField::Host)) is Some
    &&& num_field_ok(doc_lookup(text, field_key(ConfigField::Port)), u16::MAX as nat)
    &&& num_field_ok(doc_lookup(text, field_key(ConfigField::Db)), i64::MAX as nat)
    &&& num_field_ok(doc_lookup(text, field_key(ConfigField::PoolMin)), u32::MAX as nat)
    &&& num_field_ok(doc_lookup(text, field_key(ConfigField::PoolMax)), u32::MAX as nat)
}

impl RedisOptions {
    /// The rules a loaded configuration must meet: a host, a nonzero port,
    /// and pool bounds that can build a pool.
    pub open spec fn valid_spec(&self) -> bool {
        &&& self.host@.len() > 0
        &&& self.port >= 1
        &&& self.pool_max >= 1
        &&& self.pool_min <= self.pool_max
    }

    /// Reads the configuration out of a document text; succeeds exactly on
    /// the texts `redis_text_ok` accepts, and each field comes from its pair.
    pub fn from_file(contents: &str) -> (r: Result<RedisOptions, ConfigError>)
        ensures
            r is Ok <==> redis_text_ok(contents@),
            match r {
                Ok(o) => {
                    &&& Some(o.host@) == doc_lookup(contents@, field_key(ConfigField::Host))
                    &&& o.port == dec_value(
                        doc_lookup(contents@, field_key(ConfigField::Port))->Some_0,
                    )
                    &&& match doc_lookup(contents@, field_key(ConfigField::Password)) {
                        Some(v) => o.password is Some && o.password->0@ == v,
                        None => o.password is None,
                    }
                    &&& o.db == dec_value(doc_lookup(contents@, field_key(ConfigField::Db))->Some_0)
                    &&& o.pool_min == dec_value(
                        doc_lookup(contents@, field_key(ConfigField::PoolMin))->Some_0,
                    )
                    &&& o.pool_max == dec_value(
                        doc_lookup(contents@, field_key(ConfigField::PoolMax))->Some_0,
                    )
                },
                Err(e) => match e {
                    ConfigError::MalformedLine(i) => {
                        let lines = spec_split(contents@, '\n');
                        &&& !doc_ok(contents@)
                        &&& (i as int) < lines.len()
                        &&& !line_skipped(lines[i as int])
                        &&& !line_has_colon(lines[i as int])
                    },
                    ConfigError::Missing(f) => doc_ok(contents@) && doc_lookup(
                        contents@,
                        field_key(f),
                    ) is None,
                    ConfigError::BadNumber(f) => doc_ok(contents@) && doc_lookup(
                        contents@,
                        field_key(f),
                    ) is Some,
                    ConfigError::Invalid(_) => false,
                },
            },
    {
        let doc = match parse_config(contents) {
            Ok(d) => d,
            Err(e) => {
                return Err(e);
            },
        };
        let host = match doc.lookup("host") {
            Some(v) => v,
            None => {
                return Err(ConfigError::Missing(ConfigField::Host));
            },
        };
        let port64 = match get_num(&doc, "port", ConfigField::Port, 65535u64) {
            Ok(v) => v,
            Err(e) => {
                return Err(e);
            },
        };
        let password = doc.lookup("password");
        let db64 = match get_num(&doc, "db", ConfigField::Db, i64::MAX as u64) {
            Ok(v) => v,
            Err(e) => {
                return Err(e);
            },
        };
        let min64 = match get_num(&doc, "pool_min", ConfigField::PoolMin, u32::MAX as u64) {
            Ok(v) => v,
            Err(e) => {
                return Err(e);
            },
        };
        let max64 = match get_num(&doc, "pool_max", ConfigField::PoolMax, u32::MAX as u64) {
            Ok(v) => v,
            Err(e) => {
                return Err(e);
            },
        };
        Ok(
            RedisOptions {
                host,
                port: port64 as u16,
                password,
                db: db64 as i64,
                pool_min: min64 as u32,
                pool_max: max64 as u32,
            },
        )
    }

    /// Checks the validity rules; `Ok` exactly when `valid_spec` holds, and
    /// the error names the first rule broken.
    pub fn validate(&self) -> (r: Result<(), ConfigError>)
        ensures
            r is Ok <==> self.valid_spec(),
            match r {
                Ok(_) => true,
                Err(e) => match e {
                    ConfigError::Invalid(f) => (f == ConfigField::Host && self.host@.len() == 0)
                        || (f == ConfigField::Port && self.port == 0) || (f == ConfigField::PoolMax
                        && self.pool_max == 0) || (f == ConfigField::PoolMin && self.pool_min
                        > self.pool_max),
                    _ => false,
                },
            },
    {
        if self.host.as_str().unicode_len() == 0 {
            return Err(ConfigError::Invalid(ConfigField::Host));
        }
        if self.port == 0 {
            return Err(ConfigError::Invalid(ConfigField::Port));
        }
        if self.pool_max == 0 {
            return Err(ConfigError::Invalid(ConfigField::PoolMax));
        }
        if self.pool_min > self.pool_max {
            return Err(ConfigError::Invalid(ConfigField::PoolMin));
        }
        Ok(())
    }
}

} // verus!
