//! The comparison of an analysis with what a live server says of the same statement.

use crate::introspect::{mark_of, parse_nullability_annotation};
use crate::text::{
    characters, concat2, concat3, concat4, concat5, decimal, decimal_text, join, joined, opt_text,
    same_text, texts,
};
use vstd::prelude::*;
use vstd::utf8::{decode_utf8, valid_utf8};

verus! {

/// A type, by the schema and the name that the server has for it.
#[derive(Debug)]
pub enum Type {
    Basic { schema: String, name: String },
    Enum { schema: String, name: String },
    Range { schema: String, name: String },
    Domain { schema: String, name: String, base: Box<Type> },
    Array { element: Box<Type> },
    AnonymousRecord,
}

/// The name under which a server describes a column of this type. A domain is
/// described as its base type.
pub open spec fn described_name(ty: Type) -> Seq<char>
    decreases ty,
{
    match ty {
        Type::Domain { base, .. } => described_name(*base),
        Type::Basic { schema, name } => schema@ + "."@ + name@,
        Type::Enum { schema, name } => schema@ + "."@ + name@,
        Type::Range { schema, name } => schema@ + "."@ + name@,
        Type::Array { element } => described_name(*element) + "[]"@,
        Type::AnonymousRecord => "pg_catalog.record"@,
    }
}

/// The name under which a server describes a column of this type.
pub fn qualified_type_name_for_compare(ty: &Type) -> (r: String)
    ensures
        r@ == described_name(*ty),
    decreases ty,
{
    match ty {
        Type::Domain { base, .. } => qualified_type_name_for_compare(base),
        Type::Basic { schema, name } => concat3(schema, ".", name),
        Type::Enum { schema, name } => concat3(schema, ".", name),
        Type::Range { schema, name } => concat3(schema, ".", name),
        Type::Array { element } => concat2(&qualified_type_name_for_compare(element), "[]"),
        Type::AnonymousRecord => "pg_catalog.record".to_string(),
    }
}

/// The name of a server's column without the mark of null behind it. The name of a
/// column without a name is no mark.
pub open spec fn plain_column(name: Seq<char>) -> Seq<char> {
    if name == "?column?"@ {
        name
    } else {
        mark_of(name).0
    }
}

fn strip_column(name: &str) -> (r: String)
    ensures
        r@ == plain_column(name@),
{
    if same_text(name, "?column?") {
        name.to_owned()
    } else {
        parse_nullability_annotation(name).0
    }
}

/// Whether a text begins with another one.
pub open spec fn begins_with(text: Seq<char>, start: Seq<char>) -> bool {
    start.len() <= text.len() && text.take(start.len() as int) == start
}

fn has_prefix(text: &str, start: &str) -> (r: bool)
    ensures
        r == begins_with(text@, start@),
{
    let a: Vec<char> = characters(text);
    let b: Vec<char> = characters(start);
    if b.len() > a.len() {
        return false;
    }
    let mut i: usize = 0;
    while i < b.len()
        invariant
            a@ == text@,
            b@ == start@,
            i <= b@.len() <= a@.len(),
            forall|k: int| 0 <= k < i ==> a@[k] == b@[k],
        decreases b.len() - i,
    {
        if a[i] != b[i] {
            proof {
                assert(text@.take(start@.len() as int)[i as int] != start@[i as int]);
            }
            return false;
        }
        i = i + 1;
    }
    proof {
        assert(text@.take(start@.len() as int) =~= start@);
    }
    true
}

/// A refusal of the server. One without a message comes from the connection, not from
/// the server, and decides nothing.
#[derive(Debug)]
pub struct Refusal {
    pub message: Option<String>,
}

/// A difference between the analysis and the server.
#[derive(Debug, Clone, Copy, PartialEq, Eq, Structural)]
pub enum Mismatch {
    /// Both refuse, and the message does not begin with that of the server.
    Message,
    /// The server refuses what the analysis accepts.
    WronglyAccepted,
    /// The server accepts what the analysis refuses.
    WronglyRefused,
    ColumnCount,
    ColumnName(usize),
    ColumnType(usize),
}

/// The difference between the outcomes of a statement that gives nothing.
pub open spec fn apply_mismatch(
    ours: Option<Seq<char>>,
    theirs: Option<Option<Seq<char>>>,
) -> Option<
    Mismatch,
> {
    match (ours, theirs) {
        (None, None) => None,
        (Some(_), None) => Some(Mismatch::WronglyRefused),
        (_, Some(None)) => None,
        (None, Some(Some(_))) => Some(Mismatch::WronglyAccepted),
        (Some(m), Some(Some(t))) => if begins_with(m, t) {
            None
        } else {
            Some(Mismatch::Message)
        },
    }
}

/// The message of a refusal, where it has one.
pub open spec fn refusal_value(r: Option<Refusal>) -> Option<Option<Seq<char>>> {
    match r {
        Some(f) => Some(
            match f.message {
                Some(m) => Some(m@),
                None => None,
            },
        ),
        None => None,
    }
}

/// The difference between two outcomes: ours refused with a message, or accepted;
/// the server refused, or accepted.
pub fn compare_outcomes(ours: &Option<String>, theirs: &Option<Refusal>) -> (r: Option<Mismatch>)
    ensures
        r == apply_mismatch(
            match *ours {
                Some(m) => Some(m@),
                None => None,
            },
            refusal_value(*theirs),
        ),
{
    match theirs {
        None => match ours {
            None => None,
            Some(_) => Some(Mismatch::WronglyRefused),
        },
        Some(refusal) => match &refusal.message {
            None => None,
            Some(t) => match ours {
                None => Some(Mismatch::WronglyAccepted),
                Some(m) => if has_prefix(m, t) {
                    None
                } else {
                    Some(Mismatch::Message)
                },
            },
        },
    }
}

/// A column of an analysis.
#[derive(Debug)]
pub struct OurColumn {
    pub name: String,
    pub ty: Type,
}

/// A column as the server describes it.
#[derive(Debug)]
pub struct TheirColumn {
    pub name: String,
    pub qualified_type: String,
}

/// The first difference among the columns from position `i` on.
pub open spec fn column_mismatch(ours: Seq<OurColumn>, theirs: Seq<TheirColumn>, i: int) -> Option<
    Mismatch,
>
    decreases ours.len() - i,
{
    if i >= ours.len() {
        None
    } else if ours[i].name@ != plain_column(theirs[i].name@) {
        Some(Mismatch::ColumnName(i as usize))
    } else if described_name(ours[i].ty) != theirs[i].qualified_type@ {
        Some(Mismatch::ColumnType(i as usize))
    } else {
        column_mismatch(ours, theirs, i + 1)
    }
}

/// The first difference between the columns of an analysis and those of the server.
pub fn compare_columns(ours: &Vec<OurColumn>, theirs: &Vec<TheirColumn>) -> (r: Option<Mismatch>)
    ensures
        r == (if ours@.len() != theirs@.len() {
            Some(Mismatch::ColumnCount)
        } else {
            column_mismatch(ours@, theirs@, 0)
        }),
{
    if ours.len() != theirs.len() {
        return Some(Mismatch::ColumnCount);
    }
    let mut i: usize = 0;
    while i < ours.len()
        invariant
            i <= ours@.len() == theirs@.len(),
            column_mismatch(ours@, theirs@, 0) == column_mismatch(ours@, theirs@, i as int),
        decreases ours.len() - i,
    {
        let plain: String = strip_column(&theirs[i].name);
        if !same_text(&ours[i].name, &plain) {
            return Some(Mismatch::ColumnName(i));
        }
        let name: String = qualified_type_name_for_compare(&ours[i].ty);
        if !same_text(&name, &theirs[i].qualified_type) {
            return Some(Mismatch::ColumnType(i));
        }
        i = i + 1;
    }
    None
}

/// A message that says more than the server, behind what the server says, is
/// accepted.
pub proof fn law_more_detail_is_accepted(said: Seq<char>, detail: Seq<char>)
    ensures
        apply_mismatch(Some(said + detail), Some(Some(said))) is None,
{
    assert((said + detail).take(said.len() as int) =~= said);
}

/// How the server names a type: by its schema and name, or, for an array, by its
/// element type.
#[derive(Debug, PartialEq, Eq)]
pub enum ServerType {
    Named(String),
    ArrayOf(u32),
}

/// A row of the server's types, read: an array with an element type goes by that.
pub open spec fn server_type_view(
    schema: Seq<char>,
    name: Seq<char>,
    category: Seq<char>,
    typelem: u32,
) -> Result<Seq<char>, u32> {
    if category == "A"@ && typelem != 0 {
        Err(typelem)
    } else {
        Ok(schema + "."@ + name)
    }
}

/// What a row of the server's types says of the name of a type.
pub fn server_type(schema: &str, name: &str, category: &str, typelem: u32) -> (r: ServerType)
    ensures
        match r {
            ServerType::Named(s) => server_type_view(schema@, name@, category@, typelem) == Ok::<
                Seq<char>,
                u32,
            >(s@),
            ServerType::ArrayOf(e) => server_type_view(schema@, name@, category@, typelem) == Err::<
                Seq<char>,
                u32,
            >(e),
        },
{
    if same_text(category, "A") && typelem != 0 {
        ServerType::ArrayOf(typelem)
    } else {
        ServerType::Named(concat3(schema, ".", name))
    }
}

/// The name of an array type, from that of its element.
pub fn array_label(element: &str) -> (r: String)
    ensures
        r@ == element@ + "[]"@,
{
    concat2(element, "[]")
}

/// The name of a scratch database, from the number of the process, a count of the
/// databases before it, and the nanoseconds of the clock.
pub fn scratch_db_name(pid: u32, n: u64, nanos: u64) -> (r: String)
    ensures
        r@ == "pg_sanity_"@ + decimal_text(pid as nat) + "_"@ + decimal_text(n as nat) + "_"@
            + decimal_text(nanos as nat),
{
    let process: String = decimal(pid as u64);
    let count: String = decimal(n);
    let time: String = decimal(nanos);
    concat2(&concat5("pg_sanity_", &process, "_", &count, "_"), &time)
}

/// A message of the server with the code behind it; an error that has none, as it is.
pub open spec fn rendered_error(
    message: Option<Seq<char>>,
    code: Seq<char>,
    plain: Seq<char>,
) -> Seq<char> {
    match message {
        Some(m) => m + " (SQLSTATE "@ + code + ")"@,
        None => plain,
    }
}

/// A message of the server with the code behind it; an error that has none, as it is.
pub fn render_pg_error(message: &Option<String>, code: &str, plain: &str) -> (r: String)
    ensures
        r@ == rendered_error(opt_text(*message), code@, plain@),
{
    match message {
        Some(m) => concat4(m, " (SQLSTATE ", code, ")"),
        None => plain.to_owned(),
    }
}

// ── Connection strings ──────────────────────────────────────────────────────

/// What is kept of a connection string.
#[derive(Debug)]
pub struct Connection {
    pub hosts: Vec<String>,
    pub ports: Vec<u16>,
    pub user: Option<String>,
    pub password: Option<Vec<u8>>,
}

/// The contents of a [`Connection`].
pub struct ConnectionView {
    pub hosts: Seq<Seq<char>>,
    pub ports: Seq<u16>,
    pub user: Option<Seq<char>>,
    pub password: Option<Seq<u8>>,
}

impl View for Connection {
    type V = ConnectionView;

    open spec fn view(&self) -> ConnectionView {
        ConnectionView {
            hosts: texts(self.hosts@),
            ports: self.ports@,
            user: opt_text(self.user),
            password: match self.password {
                Some(p) => Some(p@),
                None => None,
            },
        }
    }
}

/// What `String::from_utf8_lossy` makes of some bytes.
pub uninterp spec fn lossy_text(raw: Seq<u8>) -> Seq<char>;

/// Calls `String::from_utf8_lossy`: a function of the bytes, and their text where
/// they are UTF-8.
#[verifier::external_body]
fn text_of_bytes(raw: &Vec<u8>) -> (r: String)
    ensures
        r@ == lossy_text(raw@),
        valid_utf8(raw@) ==> r@ == decode_utf8(raw@),
{
    String::from_utf8_lossy(raw).into_owned()
}

/// How a text looks in a message: quoted and escaped.
pub uninterp spec fn quoted_text(s: Seq<char>) -> Seq<char>;

/// The `Debug` form of a text by `format!`: a function of the text alone.
#[verifier::external_body]
fn quote(s: &str) -> (r: String)
    ensures
        r@ == quoted_text(s@),
{
    format!("{:?}", s)
}

/// What `postgres::config::Config::from_str` reads from a connection string on a platform:
/// the hosts, ports, user and password, or the text of the error.
pub uninterp spec fn connection_read(conn_str: Seq<char>, platform: nat) -> Result<
    ConnectionView,
    Seq<char>,
>;

/// Reads a connection string by `postgres::config::Config::from_str`, and takes the
/// hosts, ports, user and password from it, or the text of the error. The result is a
/// function of the string and of the platform for which the code was built: which
/// strings are read, and whether a host is a path, differs between platforms. Which
/// platform that is, and what is read from a given string, is left unsaid.
#[verifier::external_body]
fn read_connection(conn_str: &str) -> (r: Result<Connection, String>)
    ensures
        exists|platform: nat| read_view(r) == #[trigger] connection_read(conn_str@, platform),
{
    let config: postgres::config::Config = match conn_str.parse() {
        Ok(config) => config,
        Err(e) => return Err(postgres::Error::to_string(&e)),
    };
    let text_of_host = |h: &postgres::config::Host| match h {
        postgres::config::Host::Tcp(s) => s.clone(),
        postgres::config::Host::Unix(p) => p.to_string_lossy().into_owned(),
    };
    Ok(Connection {
        hosts: config.get_hosts().iter().map(text_of_host).collect(),
        ports: config.get_ports().to_vec(),
        user: config.get_user().map(str::to_owned),
        password: config.get_password().map(<[u8]>::to_vec),
    })
}

/// The keywords of a connection: the first host and port, the user and the
/// password, as far as there are any, and the name of a database.
pub open spec fn connection_parts(c: ConnectionView, dbname: Seq<char>) -> Seq<Seq<char>> {
    let host = if c.hosts.len() > 0 {
        seq!["host="@ + c.hosts[0]]
    } else {
        Seq::empty()
    };
    let port = if c.ports.len() > 0 {
        seq!["port="@ + decimal_text(c.ports[0] as nat)]
    } else {
        Seq::empty()
    };
    let user = match c.user {
        Some(u) => seq!["user="@ + u],
        None => Seq::empty(),
    };
    let password = match c.password {
        Some(p) => seq!["password="@ + lossy_text(p)],
        None => Seq::empty(),
    };
    host + port + user + password + seq!["dbname="@ + dbname]
}

/// A connection in keyword form, to a database of this name.
pub fn connection_text(c: &Connection, dbname: &str) -> (r: String)
    ensures
        r@ == joined(connection_parts(c@, dbname@), " "@),
{
    let mut parts: Vec<String> = Vec::new();
    if c.hosts.len() > 0 {
        parts.push(concat2("host=", &c.hosts[0]));
    }
    if c.ports.len() > 0 {
        let port: String = decimal(c.ports[0] as u64);
        parts.push(concat2("port=", &port));
    }
    if let Some(u) = &c.user {
        parts.push(concat2("user=", u));
    }
    if let Some(p) = &c.password {
        let password: String = text_of_bytes(p);
        parts.push(concat2("password=", &password));
    }
    parts.push(concat2("dbname=", dbname));
    proof {
        assert(texts(parts@) =~= connection_parts(c@, dbname@));
    }
    join(&parts, " ")
}

/// A connection string with another database, from what reading it gave.
pub open spec fn renamed_connection(
    conn_str: Seq<char>,
    read: Result<ConnectionView, Seq<char>>,
    dbname: Seq<char>,
) -> Result<Seq<char>, Seq<char>> {
    match read {
        Ok(c) => Ok(joined(connection_parts(c, dbname), " "@)),
        Err(m) => Err("pg_sanity: invalid POSTGRES_URL ("@ + quoted_text(conn_str) + "): "@ + m),
    }
}

/// The contents of what reading a connection string gave.
pub open spec fn read_view(read: Result<Connection, String>) -> Result<ConnectionView, Seq<char>> {
    match read {
        Ok(c) => Ok(c@),
        Err(m) => Err(m@),
    }
}

/// The texts of an outcome.
pub open spec fn text_outcome(r: Result<String, String>) -> Result<Seq<char>, Seq<char>> {
    match r {
        Ok(s) => Ok(s@),
        Err(m) => Err(m@),
    }
}

/// A connection string with another database, from what reading it gave.
pub fn renamed(conn_str: &str, read: Result<Connection, String>, dbname: &str) -> (r: Result<
    String,
    String,
>)
    ensures
        text_outcome(r) == renamed_connection(conn_str@, read_view(read), dbname@),
{
    match read {
        Ok(c) => Ok(connection_text(&c, dbname)),
        Err(m) => {
            let shown: String = quote(conn_str);
            Err(concat4("pg_sanity: invalid POSTGRES_URL (", &shown, "): ", &m))
        },
    }
}

/// A connection string with another database: what the string is read as, with its first
/// host and port, its user and its password kept.
///
/// # Errors
///
/// The string is no connection string.
pub fn with_dbname(conn_str: &str, dbname: &str) -> (r: Result<String, String>)
    ensures
        exists|platform: nat|
            text_outcome(r) == renamed_connection(
                conn_str@,
                #[trigger] connection_read(conn_str@, platform),
                dbname@,
            ),
{
    let read: Result<Connection, String> = read_connection(conn_str);
    renamed(conn_str, read, dbname)
}

/// The database of a renamed connection stands last, behind whatever else is kept.
pub proof fn law_database_stands_last(c: ConnectionView, dbname: Seq<char>)
    ensures
        connection_parts(c, dbname).len() > 0,
        connection_parts(c, dbname).last() == "dbname="@ + dbname,
        connection_parts(c, dbname).drop_last() == connection_parts(c, Seq::empty()).drop_last(),
{
    let a = connection_parts(c, dbname);
    let b = connection_parts(c, Seq::empty());
    assert(a.drop_last() =~= b.drop_last());
}

} // verus!
