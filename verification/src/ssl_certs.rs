use vstd::prelude::*;
use vstd::seq_lib::to_multiset_build;
use vstd::seq_lib::to_multiset_insert;
use vstd::string::StrSliceExecFns;
use vstd::string::StringExecFns;
use chrono::TimeZone;
use std::fmt::Write;

use crate::global_config::GlobalConfig;

verus! {

/// How the certificate panel orders its rows.
#[derive(Clone, Copy, Debug, PartialEq, Eq, Structural)]
pub enum SortMethod {
    Alphabetical,
    Expiration,
    Manual,
}

impl Default for SortMethod {
    /// Rows keep configuration order unless the configuration says otherwise.
    fn default() -> (r: Self)
        ensures
            r == SortMethod::Manual,
    {
        SortMethod::Manual
    }
}

/// Configuration of the SSL certificate panel: a sort method and the
/// certificates to report, as (display name, file path) rows in the order
/// the configuration document lists them.
pub struct SSLCerts {
    pub sort_method: SortMethod,
    pub certs: Vec<(String, String)>,
}

/// A failure while gathering one certificate's data, with the message that
/// the panel reports for it.
#[derive(Debug)]
pub enum SSLCertsError {
    /// A certificate's timestamp could not be parsed.
    ChronoParse(String),
    /// A certificate file could not be read; carries the reader's message.
    IO(String),
    /// A certificate file could not be parsed; carries the library's message.
    ErrorStack(String),
    /// The global time format pattern could not render a timestamp.
    TimeFormat,
}

impl SSLCertsError {
    /// The text this error contributes to the panel's labeled error line.
    pub open spec fn msg_spec(self) -> Seq<char> {
        match self {
            SSLCertsError::ChronoParse(_) => "Failed to parse timestamp"@,
            SSLCertsError::IO(s) => s@,
            SSLCertsError::ErrorStack(s) => s@,
            SSLCertsError::TimeFormat => "invalid time format"@,
        }
    }

    pub fn message(&self) -> (r: String)
        ensures
            r@ == self.msg_spec(),
    {
        match self {
            SSLCertsError::ChronoParse(_) => "Failed to parse timestamp".to_owned(),
            SSLCertsError::IO(s) => s.clone(),
            SSLCertsError::ErrorStack(s) => s.clone(),
            SSLCertsError::TimeFormat => "invalid time format".to_owned(),
        }
    }
}

/// Spec-level image of a gathering failure: the variant and its message.
pub enum CertFailure {
    Parse(Seq<char>),
    Io(Seq<char>),
    Stack(Seq<char>),
    Fmt,
}

/// The spec-level image of an [`SSLCertsError`].
pub open spec fn error_view(e: SSLCertsError) -> CertFailure {
    match e {
        SSLCertsError::ChronoParse(s) => CertFailure::Parse(s@),
        SSLCertsError::IO(s) => CertFailure::Io(s@),
        SSLCertsError::ErrorStack(s) => CertFailure::Stack(s@),
        SSLCertsError::TimeFormat => CertFailure::Fmt,
    }
}

/// The message a failure puts on the panel's error line; agrees with
/// [`SSLCertsError::msg_spec`] through [`error_view`].
pub open spec fn failure_msg(f: CertFailure) -> Seq<char> {
    match f {
        CertFailure::Parse(_) => "Failed to parse timestamp"@,
        CertFailure::Io(s) => s,
        CertFailure::Stack(s) => s,
        CertFailure::Fmt => "invalid time format"@,
    }
}

/// The two message functions agree: an error's own message is the message of
/// its spec-level image.
pub proof fn lemma_failure_msg_agrees(e: SSLCertsError)
    ensures
        failure_msg(error_view(e)) == e.msg_spec(),
{
}

/// One certificate, gathered and classified, ready to render.
pub struct CertInfo {
    pub name: String,
    pub status: String,
    pub expiration: i64,
}

/// Spec-level image of a [`CertInfo`]: (name, status, expiration).
pub open spec fn cert_view(c: CertInfo) -> (Seq<char>, Seq<char>, int) {
    (c.name@, c.status@, c.expiration as int)
}

pub open spec fn red_fg_seq() -> Seq<char> {
    "\u{1b}[38;5;1m"@
}

pub open spec fn yellow_fg_seq() -> Seq<char> {
    "\u{1b}[38;5;3m"@
}

pub open spec fn green_fg_seq() -> Seq<char> {
    "\u{1b}[38;5;2m"@
}

pub open spec fn reset_seq() -> Seq<char> {
    "\u{1b}[m"@
}

/// Relies on `termion::color::Red::fg_str`: the CSI sequence that selects a
/// red foreground.
#[verifier::external_body]
fn red_fg() -> (r: &'static str)
    ensures
        r@ == red_fg_seq(),
{
    termion::color::Red.fg_str()
}

/// Relies on `termion::color::Yellow::fg_str`: the CSI sequence that selects
/// a yellow foreground.
#[verifier::external_body]
fn yellow_fg() -> (r: &'static str)
    ensures
        r@ == yellow_fg_seq(),
{
    termion::color::Yellow.fg_str()
}

/// Relies on `termion::color::Green::fg_str`: the CSI sequence that selects
/// a green foreground.
#[verifier::external_body]
fn green_fg() -> (r: &'static str)
    ensures
        r@ == green_fg_seq(),
{
    termion::color::Green.fg_str()
}

/// Relies on `termion::style::Reset` as `AsRef<str>`: the CSI sequence that
/// resets all style parameters.
#[verifier::external_body]
fn reset_style() -> (r: &'static str)
    ensures
        r@ == reset_seq(),
{
    AsRef::<str>::as_ref(&termion::style::Reset)
}

/// A certificate within this many seconds of expiring is reported as
/// "expiring" rather than "valid" (thirty days).
pub const EXPIRY_WARN_SECS: i64 = 2592000;

/// The colored status fragment for a certificate that expires at
/// `expiration`, judged at `now` (both Unix seconds): red "expired on",
/// yellow "expiring on" within thirty days, green "valid until" otherwise.
pub open spec fn status_seq(expiration: int, now: int) -> Seq<char> {
    if expiration < now {
        red_fg_seq() + "expired on"@ + reset_seq()
    } else if expiration < now + EXPIRY_WARN_SECS {
        yellow_fg_seq() + "expiring on"@ + reset_seq()
    } else {
        green_fg_seq() + "valid until"@ + reset_seq()
    }
}

fn status_string(expiration: i64, now: i64) -> (r: String)
    ensures
        r@ == status_seq(expiration as int, now as int),
{
    if expiration < now {
        let mut s = red_fg().to_owned();
        s.append("expired on");
        s.append(reset_style());
        s
    } else if (expiration as i128) < (now as i128) + (EXPIRY_WARN_SECS as i128) {
        let mut s = yellow_fg().to_owned();
        s.append("expiring on");
        s.append(reset_style());
        s
    } else {
        let mut s = green_fg().to_owned();
        s.append("valid until");
        s.append(reset_style());
        s
    }
}

/// What extracting the `notAfter` field of a PEM certificate yields: `Ok`
/// with the field's display text exactly when the bytes parse as a PEM
/// certificate, `Err` with the parser's message otherwise.  A function of
/// the bytes alone.
pub uninterp spec fn pem_not_after(pem: Seq<u8>) -> Result<Seq<char>, Seq<char>>;

/// Relies on `openssl::x509::X509::from_pem`, `X509Ref::not_after` and the
/// `Display` of `Asn1TimeRef`: the `notAfter` field of a PEM certificate as
/// its display text, or the error stack's message.
#[verifier::external_body]
fn cert_not_after(pem: &Vec<u8>) -> (r: Result<String, String>)
    ensures
        r is Ok <==> pem_not_after(pem@) is Ok,
        r is Ok ==> r->Ok_0@ == pem_not_after(pem@)->Ok_0,
        r is Err ==> r->Err_0@ == pem_not_after(pem@)->Err_0,
{
    match openssl::x509::X509::from_pem(pem.as_slice()) {
        Ok(cert) => Ok(format!("{}", cert.not_after())),
        Err(e) => Err(format!("{e}")),
    }
}

/// What parsing a timestamp text against a strftime pattern yields, as Unix
/// seconds in UTC: a function of the two strings alone.  `Err` carries the
/// parse error's message.
pub uninterp spec fn parsed_timestamp(text: Seq<char>, fmt: Seq<char>) -> Result<i64, Seq<char>>;

/// Relies on chrono's `TimeZone::datetime_from_str` for `Utc` and
/// `DateTime::timestamp`: parses `text` against `fmt` and yields Unix
/// seconds.
#[verifier::external_body]
#[allow(deprecated)]
fn parse_datetime(text: &str, fmt: &str) -> (r: Result<i64, String>)
    ensures
        r is Ok <==> parsed_timestamp(text@, fmt@) is Ok,
        r is Ok ==> r->Ok_0 == parsed_timestamp(text@, fmt@)->Ok_0,
        r is Err ==> r->Err_0@ == parsed_timestamp(text@, fmt@)->Err_0,
{
    match chrono::Utc.datetime_from_str(text, fmt) {
        Ok(dt) => Ok(dt.timestamp()),
        Err(e) => Err(format!("{e}")),
    }
}

/// What rendering a Unix timestamp in UTC with a strftime pattern yields:
/// `None` when the timestamp is outside chrono's range or the pattern is
/// invalid.  A function of the two arguments alone (UTC, no locale).
pub uninterp spec fn utc_time_string(ts: i64, fmt: Seq<char>) -> Option<Seq<char>>;

/// Relies on chrono's `TimeZone::timestamp_opt` for `Utc`,
/// `DateTime::format` and the `Display` of `DelayedFormat`, written through
/// `write!` so that an invalid pattern surfaces as an error instead of a
/// panic.
#[verifier::external_body]
fn format_timestamp(ts: i64, fmt: &str) -> (r: Option<String>)
    ensures
        r is Some <==> utc_time_string(ts, fmt@) is Some,
        r is Some ==> r->0@ == utc_time_string(ts, fmt@)->0,
{
    match chrono::Utc.timestamp_opt(ts, 0).single() {
        Some(dt) => {
            let mut out = String::new();
            match write!(out, "{}", dt.format(fmt)) {
                Ok(()) => Some(out),
                Err(_) => None,
            }
        },
        None => None,
    }
}

/// The pattern a certificate's `notAfter` display text is parsed with.
pub open spec fn cert_time_format() -> Seq<char> {
    "%B %_d %T %Y %Z"@
}

/// Lexicographic order on character sequences, by code point.
pub open spec fn lex_le(a: Seq<char>, b: Seq<char>) -> bool
    decreases a.len(),
{
    if a.len() == 0 {
        true
    } else if b.len() == 0 {
        false
    } else if (a.first() as u32) != (b.first() as u32) {
        (a.first() as u32) < (b.first() as u32)
    } else {
        lex_le(a.drop_first(), b.drop_first())
    }
}

pub proof fn lemma_lex_le_total(a: Seq<char>, b: Seq<char>)
    ensures
        lex_le(a, b) || lex_le(b, a),
    decreases a.len(),
{
    if a.len() > 0 && b.len() > 0 && (a.first() as u32) == (b.first() as u32) {
        lemma_lex_le_total(a.drop_first(), b.drop_first());
    }
}

/// Compares two strings in the order of [`lex_le`].
fn str_le(a: &String, b: &String) -> (r: bool)
    ensures
        r == lex_le(a@, b@),
{
    let la = a.as_str().unicode_len();
    let lb = b.as_str().unicode_len();
    let mut i: usize = 0;
    proof {
        assert(a@.skip(0) =~= a@);
        assert(b@.skip(0) =~= b@);
    }
    while i < la && i < lb
        invariant
            la == a@.len(),
            lb == b@.len(),
            i <= la,
            i <= lb,
            lex_le(a@, b@) == lex_le(a@.skip(i as int), b@.skip(i as int)),
        decreases la - i,
    {
        let ca = a.as_str().get_char(i);
        let cb = b.as_str().get_char(i);
        if (ca as u32) != (cb as u32) {
            assert(a@.skip(i as int).first() == ca && b@.skip(i as int).first() == cb);
            return (ca as u32) < (cb as u32);
        }
        proof {
            assert(a@.skip(i as int).drop_first() =~= a@.skip(i + 1));
            assert(b@.skip(i as int).drop_first() =~= b@.skip(i + 1));
        }
        i = i + 1;
    }
    proof {
        if i == la {
            assert(a@.skip(i as int).len() == 0);
        } else {
            assert(b@.skip(i as int).len() == 0 && a@.skip(i as int).len() > 0);
        }
    }
    la <= lb
}

/// Spec-level image of a gathered certificate: (name, status, expiration).
pub type CertRow = (Seq<char>, Seq<char>, int);

/// The spec-level rows of a gathered certificate list.
pub open spec fn views_of(s: Seq<CertInfo>) -> Seq<CertRow> {
    s.map_values(|c: CertInfo| cert_view(c))
}

/// The order the panel sorts by: names for `Alphabetical`, timestamps for
/// `Expiration`; under `Manual` every row compares equal, so sorting leaves
/// the configuration order in place.
pub open spec fn cert_le(m: SortMethod, a: CertRow, b: CertRow) -> bool {
    match m {
        SortMethod::Alphabetical => lex_le(a.0, b.0),
        SortMethod::Expiration => a.2 <= b.2,
        SortMethod::Manual => true,
    }
}

pub proof fn lemma_cert_le_total(m: SortMethod, a: CertRow, b: CertRow)
    ensures
        cert_le(m, a, b) || cert_le(m, b, a),
{
    if m is Alphabetical {
        lemma_lex_le_total(a.0, b.0);
    }
}

/// Where a stable insertion places `x` in `s`: after every leading row that
/// compares at or before `x`.
pub open spec fn insert_pos(m: SortMethod, s: Seq<CertRow>, x: CertRow) -> int
    decreases s.len(),
{
    if s.len() == 0 {
        0
    } else if cert_le(m, s.first(), x) {
        1 + insert_pos(m, s.drop_first(), x)
    } else {
        0
    }
}

pub open spec fn insert_sorted(m: SortMethod, s: Seq<CertRow>, x: CertRow) -> Seq<CertRow> {
    s.insert(insert_pos(m, s, x), x)
}

/// Every adjacent pair of rows is in order.
pub open spec fn rows_sorted(m: SortMethod, s: Seq<CertRow>) -> bool {
    forall|i: int| 0 <= i < s.len() - 1 ==> cert_le(m, #[trigger] s[i], s[i + 1])
}

proof fn lemma_insert_pos(m: SortMethod, s: Seq<CertRow>, x: CertRow)
    ensures
        0 <= insert_pos(m, s, x) <= s.len(),
        forall|j: int| 0 <= j < insert_pos(m, s, x) ==> cert_le(m, #[trigger] s[j], x),
        insert_pos(m, s, x) < s.len() ==> !cert_le(m, s[insert_pos(m, s, x)], x),
    decreases s.len(),
{
    if s.len() > 0 && cert_le(m, s.first(), x) {
        lemma_insert_pos(m, s.drop_first(), x);
        let p = insert_pos(m, s, x);
        assert forall|j: int| 0 <= j < p implies cert_le(m, #[trigger] s[j], x) by {
            if j > 0 {
                assert(s.drop_first()[j - 1] == s[j]);
                assert(cert_le(m, s.drop_first()[j - 1], x));
            }
        }
        if p < s.len() {
            assert(s.drop_first()[p - 1] == s[p]);
        }
    }
}

proof fn lemma_insert_sorted(m: SortMethod, s: Seq<CertRow>, x: CertRow)
    requires
        rows_sorted(m, s),
    ensures
        rows_sorted(m, insert_sorted(m, s, x)),
        insert_sorted(m, s, x).to_multiset() == s.to_multiset().insert(x),
        insert_sorted(m, s, x).len() == s.len() + 1,
    decreases s.len(),
{
    broadcast use to_multiset_insert;

    lemma_insert_pos(m, s, x);
    let p = insert_pos(m, s, x);
    let t = insert_sorted(m, s, x);
    if p < s.len() {
        lemma_cert_le_total(m, s[p], x);
    }
    assert forall|i: int| 0 <= i < t.len() - 1 implies cert_le(m, #[trigger] t[i], t[i + 1]) by {
        if i + 1 < p {
            assert(t[i] == s[i] && t[i + 1] == s[i + 1]);
        } else if i + 1 == p {
            assert(t[i] == s[i] && t[i + 1] == x);
        } else if i == p {
            assert(t[i] == x && t[i + 1] == s[i]);
        } else {
            assert(t[i] == s[i - 1] && t[i + 1] == s[i]);
        }
    }
}

/// The panel's sort: a stable insertion sort over the gathered rows; under
/// `Manual` it keeps the input order.
pub open spec fn sort_rows(m: SortMethod, s: Seq<CertRow>) -> Seq<CertRow>
    decreases s.len(),
{
    if s.len() == 0 {
        s
    } else {
        insert_sorted(m, sort_rows(m, s.drop_last()), s.last())
    }
}

/// Sorting yields the same rows (as a multiset), in sorted order, and keeps
/// the count; under `Manual` it is the identity.
pub proof fn lemma_sort_rows(m: SortMethod, s: Seq<CertRow>)
    ensures
        rows_sorted(m, sort_rows(m, s)),
        sort_rows(m, s).to_multiset() == s.to_multiset(),
        sort_rows(m, s).len() == s.len(),
        m is Manual ==> sort_rows(m, s) == s,
    decreases s.len(),
{
    broadcast use to_multiset_build;

    if s.len() > 0 {
        lemma_sort_rows(m, s.drop_last());
        lemma_insert_sorted(m, sort_rows(m, s.drop_last()), s.last());
        assert(s.drop_last().push(s.last()) =~= s);
        if m is Manual {
            lemma_insert_pos_manual(m, sort_rows(m, s.drop_last()), s.last());
            assert(sort_rows(m, s) =~= s);
        }
    }
}

proof fn lemma_insert_pos_manual(m: SortMethod, s: Seq<CertRow>, x: CertRow)
    requires
        m is Manual,
    ensures
        insert_pos(m, s, x) == s.len(),
        insert_sorted(m, s, x) =~= s.push(x),
    decreases s.len(),
{
    if s.len() > 0 {
        lemma_insert_pos_manual(m, s.drop_first(), x);
    }
}

fn cert_le_exec(m: &SortMethod, a: &CertInfo, b: &CertInfo) -> (r: bool)
    ensures
        r == cert_le(*m, cert_view(*a), cert_view(*b)),
{
    match m {
        SortMethod::Alphabetical => str_le(&a.name, &b.name),
        SortMethod::Expiration => a.expiration <= b.expiration,
        SortMethod::Manual => true,
    }
}

/// Inserts one gathered certificate at its stable position.
fn insert_cert(m: &SortMethod, v: &mut Vec<CertInfo>, x: CertInfo)
    ensures
        views_of(final(v)@) == insert_sorted(*m, views_of(old(v)@), cert_view(x)),
{
    let ghost s = views_of(old(v)@);
    let ghost xv = cert_view(x);
    proof {
        assert(s.skip(0) =~= s);
    }
    let mut i: usize = 0;
    while i < v.len() && cert_le_exec(m, &v[i], &x)
        invariant
            i <= v.len(),
            v@ == old(v)@,
            s == views_of(v@),
            xv == cert_view(x),
            insert_pos(*m, s, xv) == i + insert_pos(*m, s.skip(i as int), xv),
        decreases v.len() - i,
    {
        proof {
            assert(s.skip(i as int).first() == s[i as int]);
            assert(s.skip(i as int).drop_first() =~= s.skip(i + 1));
        }
        i = i + 1;
    }
    proof {
        if i < v.len() {
            assert(s.skip(i as int).first() == s[i as int]);
        } else {
            assert(s.skip(i as int).len() == 0);
        }
        assert(insert_pos(*m, s, xv) == i);
    }
    v.insert(i, x);
    proof {
        assert(views_of(v@) =~= s.insert(i as int, xv));
    }
}

/// Sorts the gathered certificates by the configured method.
fn sort_certs(m: &SortMethod, v: Vec<CertInfo>) -> (r: Vec<CertInfo>)
    ensures
        views_of(r@) == sort_rows(*m, views_of(v@)),
{
    let ghost s = views_of(v@);
    let mut out: Vec<CertInfo> = Vec::new();
    let mut rest = v;
    let total: usize = rest.len();
    let ghost n = s.len();
    let mut i: usize = 0;
    proof {
        assert(out@.len() == 0);
        assert(views_of(out@) =~= sort_rows(*m, s.subrange(0, 0)));
        assert(views_of(rest@) =~= s.skip(0));
    }
    while rest.len() > 0
        invariant
            n == s.len(),
            n == total as int,
            i + rest@.len() == n,
            i <= n,
            views_of(rest@) == s.skip(i as int),
            views_of(out@) == sort_rows(*m, s.subrange(0, i as int)),
        decreases rest@.len(),
    {
        let ghost prev = rest@;
        let x = rest.remove(0);
        proof {
            assert(views_of(prev) == s.skip(i as int));
            assert(views_of(rest@) =~= s.skip(i as int).drop_first());
            assert(s.skip(i as int).drop_first() =~= s.skip(i + 1));
            assert(cert_view(x) == views_of(prev)[0]);
            assert(s.skip(i as int)[0] == s[i as int]);
            assert(s.subrange(0, i + 1).drop_last() =~= s.subrange(0, i as int));
            assert(s.subrange(0, i + 1).last() == s[i as int]);
        }
        insert_cert(m, &mut out, x);
        i = i + 1;
    }
    proof {
        assert(s.subrange(0, n as int) =~= s);
    }
    out
}

/// Spec-level image of one fetched certificate file.
pub open spec fn fetch_view(r: Result<Vec<u8>, String>) -> Result<Seq<u8>, Seq<char>> {
    match r {
        Ok(b) => Ok(b@),
        Err(s) => Err(s@),
    }
}

/// Pairs the configured certificate names with their fetched files, in
/// configuration order.
pub open spec fn entries_view(
    certs: Seq<(String, String)>,
    files: Seq<Result<Vec<u8>, String>>,
) -> Seq<(Seq<char>, Result<Seq<u8>, Seq<char>>)> {
    Seq::new(certs.len(), |i: int| (certs[i].0@, fetch_view(files[i])))
}

/// Gathering one certificate: the fetched bytes are parsed as a PEM
/// certificate, its `notAfter` text is parsed as a timestamp, and the
/// status is judged against `now`.
pub open spec fn cert_entry(e: (Seq<char>, Result<Seq<u8>, Seq<char>>), now: int) -> Result<
    CertRow,
    CertFailure,
> {
    match e.1 {
        Err(io) => Err(CertFailure::Io(io)),
        Ok(bytes) => match pem_not_after(bytes) {
            Err(st) => Err(CertFailure::Stack(st)),
            Ok(text) => match parsed_timestamp(text, cert_time_format()) {
                Err(p) => Err(CertFailure::Parse(p)),
                Ok(ts) => Ok((e.0, status_seq(ts as int, now), ts as int)),
            },
        },
    }
}

/// Gathering every certificate, left to right; the first failure wins.
pub open spec fn collect_rows(
    es: Seq<(Seq<char>, Result<Seq<u8>, Seq<char>>)>,
    now: int,
) -> Result<Seq<CertRow>, CertFailure>
    decreases es.len(),
{
    if es.len() == 0 {
        Ok(Seq::empty())
    } else {
        match cert_entry(es.first(), now) {
            Err(f) => Err(f),
            Ok(row) => match collect_rows(es.drop_first(), now) {
                Err(f) => Err(f),
                Ok(rest) => Ok(seq![row] + rest),
            },
        }
    }
}

fn collect_certs(certs: &Vec<(String, String)>, files: &Vec<Result<Vec<u8>, String>>, now: i64) -> (r:
    Result<Vec<CertInfo>, SSLCertsError>)
    requires
        files@.len() == certs@.len(),
    ensures
        (match r {
            Ok(v) => collect_rows(entries_view(certs@, files@), now as int) == Ok::<Seq<CertRow>, CertFailure>(views_of(v@)),
            Err(e) => collect_rows(entries_view(certs@, files@), now as int) == Err::<Seq<CertRow>, CertFailure>(error_view(e)),
        }),
{
    let ghost es = entries_view(certs@, files@);
    let mut out: Vec<CertInfo> = Vec::new();
    let mut i: usize = 0;
    proof {
        assert(es.skip(0) =~= es);
        assert(views_of(out@) =~= Seq::<CertRow>::empty());
    }
    while i < certs.len()
        invariant
            files@.len() == certs@.len(),
            es == entries_view(certs@, files@),
            i <= certs@.len(),
            out@.len() == i,
            (match collect_rows(es.skip(i as int), now as int) {
                Ok(rest) => collect_rows(es, now as int) == Ok::<Seq<CertRow>, CertFailure>(views_of(out@) + rest),
                Err(f) => collect_rows(es, now as int) == Err::<Seq<CertRow>, CertFailure>(f),
            }),
        decreases certs@.len() - i,
    {
        proof {
            assert(es.skip(i as int).first() == es[i as int]);
            assert(es.skip(i as int).drop_first() =~= es.skip(i + 1));
        }
        let name = certs[i].0.clone();
        let entry = &files[i];
        match entry {
            Err(msg) => {
                return Err(SSLCertsError::IO(msg.clone()));
            },
            Ok(bytes) => {
                match cert_not_after(bytes) {
                    Err(emsg) => {
                        return Err(SSLCertsError::ErrorStack(emsg));
                    },
                    Ok(text) => {
                        match parse_datetime(text.as_str(), "%B %_d %T %Y %Z") {
                            Err(p) => {
                                return Err(SSLCertsError::ChronoParse(p));
                            },
                            Ok(ts) => {
                                let status = status_string(ts, now);
                                let info = CertInfo { name, status, expiration: ts };
                                let ghost row = cert_view(info);
                                proof {
                                    assert(cert_entry(es[i as int], now as int) == Ok::<
                                        CertRow,
                                        CertFailure,
                                    >(row));
                                }
                                let ghost prev = out@;
                                out.push(info);
                                proof {
                                    assert(views_of(out@) =~= views_of(prev).push(row));
                                    assert forall|rest2: Seq<CertRow>|
                                        true implies views_of(prev) + (seq![row] + rest2)
                                        == views_of(prev).push(row) + rest2 by {
                                        assert(views_of(prev) + (seq![row] + rest2)
                                            =~= views_of(prev).push(row) + rest2);
                                    }
                                }
                            },
                        }
                    },
                }
            },
        }
        i = i + 1;
    }
    proof {
        assert(es.skip(i as int).len() == 0);
        assert(views_of(out@) + Seq::<CertRow>::empty() =~= views_of(out@));
    }
    Ok(out)
}

/// One rendered certificate line: two columns of indent, then the name, the
/// colored status, and the formatted expiration, separated by spaces.
pub open spec fn cert_line(c: CertRow, t: Seq<char>) -> Seq<char> {
    "  "@ + c.0 + " "@ + c.1 + " "@ + t
}

/// Rendering the sorted rows with the global time format; fails when the
/// pattern cannot render a timestamp.
pub open spec fn render_rows(s: Seq<CertRow>, fmt: Seq<char>) -> Result<
    Seq<Seq<char>>,
    CertFailure,
>
    decreases s.len(),
{
    if s.len() == 0 {
        Ok(Seq::empty())
    } else {
        match utc_time_string(s.first().2 as i64, fmt) {
            None => Err(CertFailure::Fmt),
            Some(t) => match render_rows(s.drop_first(), fmt) {
                Err(f) => Err(f),
                Ok(rest) => Ok(seq![cert_line(s.first(), t)] + rest),
            },
        }
    }
}

/// Rendering succeeds or fails as a whole; on success there is exactly one
/// line per row, in row order.
pub proof fn lemma_render_rows_lines(s: Seq<CertRow>, fmt: Seq<char>)
    ensures
        render_rows(s, fmt) is Ok ==> render_rows(s, fmt)->Ok_0.len() == s.len(),
        render_rows(s, fmt) is Ok ==> forall|i: int|
            0 <= i < s.len() ==> utc_time_string(#[trigger] s[i].2 as i64, fmt) is Some
                && render_rows(s, fmt)->Ok_0[i] == cert_line(
                s[i],
                utc_time_string(s[i].2 as i64, fmt)->0,
            ),
    decreases s.len(),
{
    if s.len() > 0 && render_rows(s, fmt) is Ok {
        lemma_render_rows_lines(s.drop_first(), fmt);
        assert forall|i: int| 0 <= i < s.len() implies utc_time_string(
            #[trigger] s[i].2 as i64,
            fmt,
        ) is Some && render_rows(s, fmt)->Ok_0[i] == cert_line(
            s[i],
            utc_time_string(s[i].2 as i64, fmt)->0,
        ) by {
            if i > 0 {
                assert(s.drop_first()[i - 1] == s[i]);
                assert(render_rows(s, fmt)->Ok_0[i] == render_rows(s.drop_first(), fmt)->Ok_0[i
                    - 1]);
            }
        }
    }
}

fn render_certs(sorted: &Vec<CertInfo>, fmt: &String) -> (r: Result<Vec<String>, SSLCertsError>)
    ensures
        (match r {
            Ok(v) => render_rows(views_of(sorted@), fmt@) == Ok::<Seq<Seq<char>>, CertFailure>(v.deep_view()),
            Err(e) => render_rows(views_of(sorted@), fmt@) == Err::<Seq<Seq<char>>, CertFailure>(error_view(e)),
        }),
{
    let ghost rows = views_of(sorted@);
    let mut out: Vec<String> = Vec::new();
    let mut i: usize = 0;
    proof {
        assert(rows.skip(0) =~= rows);
        assert(out.deep_view() =~= Seq::<Seq<char>>::empty());
    }
    while i < sorted.len()
        invariant
            rows == views_of(sorted@),
            i <= sorted@.len(),
            out@.len() == i,
            (match render_rows(rows.skip(i as int), fmt@) {
                Ok(rest) => render_rows(rows, fmt@) == Ok::<Seq<Seq<char>>, CertFailure>(out.deep_view() + rest),
                Err(f) => render_rows(rows, fmt@) == Err::<Seq<Seq<char>>, CertFailure>(f),
            }),
        decreases sorted@.len() - i,
    {
        proof {
            assert(rows.skip(i as int).first() == rows[i as int]);
            assert(rows.skip(i as int).drop_first() =~= rows.skip(i + 1));
        }
        let c = &sorted[i];
        match format_timestamp(c.expiration, fmt.as_str()) {
            None => {
                return Err(SSLCertsError::TimeFormat);
            },
            Some(t) => {
                let mut line = "  ".to_owned();
                line.append(c.name.as_str());
                line.append(" ");
                line.append(c.status.as_str());
                line.append(" ");
                line.append(t.as_str());
                let ghost lv = line@;
                proof {
                    assert(lv == cert_line(rows[i as int], t@));
                }
                let ghost prev = out.deep_view();
                out.push(line);
                proof {
                    assert(out.deep_view() =~= prev.push(lv));
                    assert forall|rest2: Seq<Seq<char>>|
                        true implies prev + (seq![lv] + rest2) =~= prev.push(lv) + rest2 by {}
                }
            },
        }
        i = i + 1;
    }
    proof {
        assert(rows.skip(i as int).len() == 0);
        assert(out.deep_view() + Seq::<Seq<char>>::empty() =~= out.deep_view());
    }
    Ok(out)
}

/// The panel's body: certificates gathered at `now`, sorted by `m`, rendered
/// with `fmt` under a title line; or the first failure met on the way.
pub open spec fn ssl_body(
    m: SortMethod,
    es: Seq<(Seq<char>, Result<Seq<u8>, Seq<char>>)>,
    now: int,
    fmt: Seq<char>,
) -> Result<Seq<Seq<char>>, CertFailure> {
    match collect_rows(es, now) {
        Err(f) => Err(f),
        Ok(rows) => match render_rows(sort_rows(m, rows), fmt) {
            Err(f) => Err(f),
            Ok(lines) => Ok(seq!["SSL Certificates:"@] + lines),
        },
    }
}

/// Law: if any configured certificate's gathering fails, the whole panel
/// body is a failure — rendered as a single labeled error line — never a
/// partial table.
pub proof fn lemma_any_failure_fails_body(
    es: Seq<(Seq<char>, Result<Seq<u8>, Seq<char>>)>,
    now: int,
    fmt: Seq<char>,
    m: SortMethod,
)
    requires
        exists|i: int| 0 <= i < es.len() && cert_entry(#[trigger] es[i], now) is Err,
    ensures
        collect_rows(es, now) is Err,
        ssl_body(m, es, now, fmt) is Err,
    decreases es.len(),
{
    if es.len() > 0 {
        if cert_entry(es.first(), now) is Err {
        } else {
            let i = choose|i: int| 0 <= i < es.len() && cert_entry(#[trigger] es[i], now) is Err;
            assert(es[0] == es.first());
            assert(i > 0);
            assert(es.drop_first()[i - 1] == es[i]);
            assert(cert_entry(es.drop_first()[i - 1], now) is Err);
            lemma_any_failure_fails_body(es.drop_first(), now, fmt, m);
        }
    }
}

/// Law: under `sort_method = Expiration` a successful panel body lists the
/// certificates in ascending expiration order: after the title line, line
/// `i` renders the `i`-th row of the sorted gathering, the sorted rows'
/// expirations are nondecreasing, and they are a permutation of the
/// gathered rows.
pub proof fn lemma_expiration_order(
    es: Seq<(Seq<char>, Result<Seq<u8>, Seq<char>>)>,
    now: int,
    fmt: Seq<char>,
)
    requires
        ssl_body(SortMethod::Expiration, es, now, fmt) is Ok,
    ensures
        ({
            let rows = collect_rows(es, now)->Ok_0;
            let sorted = sort_rows(SortMethod::Expiration, rows);
            let body = ssl_body(SortMethod::Expiration, es, now, fmt)->Ok_0;
            &&& sorted.to_multiset() == rows.to_multiset()
            &&& forall|i: int| 0 <= i < sorted.len() - 1 ==> (#[trigger] sorted[i]).2 <= sorted[i
                + 1].2
            &&& body.len() == sorted.len() + 1
            &&& body[0] == "SSL Certificates:"@
            &&& forall|i: int| 0 <= i < sorted.len() ==> body[i + 1] == cert_line(
                #[trigger] sorted[i],
                utc_time_string(sorted[i].2 as i64, fmt)->0,
            )
        }),
{
    let rows = collect_rows(es, now)->Ok_0;
    let sorted = sort_rows(SortMethod::Expiration, rows);
    let body = ssl_body(SortMethod::Expiration, es, now, fmt)->Ok_0;
    lemma_sort_rows(SortMethod::Expiration, rows);
    lemma_render_rows_lines(sorted, fmt);
    let lines = render_rows(sorted, fmt)->Ok_0;
    assert(body =~= seq!["SSL Certificates:"@] + lines);
    assert(forall|i: int| 0 <= i < sorted.len() ==> body[i + 1] == lines[i]);
}

impl SSLCerts {
    /// Gathers, classifies, sorts and renders the configured certificates.
    /// `files` holds the fetched file (or the reader's error message) for
    /// each configured certificate, in configuration order; `now` is the
    /// judgment time in Unix seconds.  On success the lines are the panel
    /// body; the first failure met is returned instead.
    pub fn print_or_error(
        self,
        global_config: &GlobalConfig,
        now: i64,
        files: Vec<Result<Vec<u8>, String>>,
    ) -> (r: Result<Vec<String>, SSLCertsError>)
        requires
            files@.len() == self.certs@.len(),
        ensures
            (match r {
                Ok(lines) => ssl_body(
                    self.sort_method,
                    entries_view(self.certs@, files@),
                    now as int,
                    global_config.time_format@,
                ) == Ok::<Seq<Seq<char>>, CertFailure>(lines.deep_view()),
                Err(e) => ssl_body(
                    self.sort_method,
                    entries_view(self.certs@, files@),
                    now as int,
                    global_config.time_format@,
                ) == Err::<Seq<Seq<char>>, CertFailure>(error_view(e)),
            }),
    {
        let rows = match collect_certs(&self.certs, &files, now) {
            Ok(v) => v,
            Err(e) => {
                return Err(e);
            },
        };
        let sorted = sort_certs(&self.sort_method, rows);
        let rendered = match render_certs(&sorted, &global_config.time_format) {
            Ok(v) => v,
            Err(e) => {
                return Err(e);
            },
        };
        let mut out: Vec<String> = Vec::new();
        out.push("SSL Certificates:".to_owned());
        let ghost title = "SSL Certificates:"@;
        proof {
            assert(out.deep_view() =~= seq![title] + rendered.deep_view().take(0));
        }
        let mut j: usize = 0;
        while j < rendered.len()
            invariant
                j <= rendered@.len(),
                out.deep_view() == seq![title] + rendered.deep_view().take(j as int),
            decreases rendered@.len() - j,
        {
            let ghost prev = out.deep_view();
            out.push(rendered[j].clone());
            proof {
                assert(out.deep_view() =~= prev.push(rendered@[j as int]@));
                assert(prev.push(rendered@[j as int]@) =~= seq![title]
                    + rendered.deep_view().take(j + 1));
            }
            j = j + 1;
        }
        proof {
            assert(rendered.deep_view().take(rendered@.len() as int) =~= rendered.deep_view());
        }
        Ok(out)
    }
}

} // verus!
