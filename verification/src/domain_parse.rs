//! Destination domain names from TCP payloads: the TLS ClientHello server
//! name (SNI), unless the ClientHello encrypts it (ECH).

use vstd::prelude::*;
use vstd::utf8::{decode_utf8, valid_utf8};

use crate::text::utf8_string;

use tls_parser::{TlsExtension as X, TlsMessage as M, TlsMessageHandshake as H};

verus! {

/// A parser that finds the destination domain in the payload of an
/// outbound TCP packet; `None` when it finds none.
pub trait DomainParser {
    fn parse_domain(&self, tcp_payload: &[u8]) -> Option<String>;
}

/// draft-ietf-tls-esni `encrypted_server_name` extension type.
pub const DRAFT_ENCRYPTED_SERVER_NAME_TYPE: u16 = 0xFFCE;

/// RFC 9849 `encrypted_client_hello` extension type.
pub const RFC9849_ECH_EXTENSION_TYPE: u16 = 0xFE0D;

/// A message of a TLS plaintext record, as far as domain extraction reads it.
#[derive(Debug)]
pub enum TlsMessageSummary {
    /// A ClientHello, with its raw extensions block when it has one.
    ClientHello(Option<Vec<u8>>),
    Other,
}

pub ghost enum TlsMessageView {
    ClientHello(Option<Seq<u8>>),
    Other,
}

impl View for TlsMessageSummary {
    type V = TlsMessageView;

    open spec fn view(&self) -> TlsMessageView {
        match self {
            TlsMessageSummary::ClientHello(Some(e)) => TlsMessageView::ClientHello(Some(e@)),
            TlsMessageSummary::ClientHello(None) => TlsMessageView::ClientHello(None),
            TlsMessageSummary::Other => TlsMessageView::Other,
        }
    }
}

/// A ClientHello extension, as far as domain extraction reads it.
#[derive(Debug)]
pub enum TlsExtensionSummary {
    /// server_name: (name type, name bytes) entries.
    Sni(Vec<(u8, Vec<u8>)>),
    /// The draft encrypted_server_name extension that the parser decodes.
    EncryptedServerName,
    /// An extension the parser does not decode, with its type code.
    Unknown(u16),
    Other,
}

pub ghost enum TlsExtensionView {
    Sni(Seq<(u8, Seq<u8>)>),
    EncryptedServerName,
    Unknown(u16),
    Other,
}

pub open spec fn entries_view(v: Vec<(u8, Vec<u8>)>) -> Seq<(u8, Seq<u8>)> {
    v@.map_values(|e: (u8, Vec<u8>)| (e.0, e.1@))
}

impl View for TlsExtensionSummary {
    type V = TlsExtensionView;

    open spec fn view(&self) -> TlsExtensionView {
        match self {
            TlsExtensionSummary::Sni(entries) => TlsExtensionView::Sni(entries_view(*entries)),
            TlsExtensionSummary::EncryptedServerName => TlsExtensionView::EncryptedServerName,
            TlsExtensionSummary::Unknown(t) => TlsExtensionView::Unknown(*t),
            TlsExtensionSummary::Other => TlsExtensionView::Other,
        }
    }
}

pub open spec fn messages_view(v: Seq<TlsMessageSummary>) -> Seq<TlsMessageView> {
    v.map_values(|m: TlsMessageSummary| m@)
}

pub open spec fn extensions_view(v: Seq<TlsExtensionSummary>) -> Seq<TlsExtensionView> {
    v.map_values(|x: TlsExtensionSummary| x@)
}

/// The messages that `tls_parser::parse_tls_plaintext` decodes from the
/// first TLS record of a payload (`None` when it reports an error).
pub uninterp spec fn tls_plaintext_messages(payload: Seq<u8>) -> Option<Seq<TlsMessageView>>;

/// The extensions that `tls_parser::parse_tls_extensions` decodes from a
/// ClientHello extensions block (`None` when it reports an error).
pub uninterp spec fn tls_extensions(block: Seq<u8>) -> Option<Seq<TlsExtensionView>>;

/// Calls `tls_parser::parse_tls_plaintext` and keeps, of each message,
/// whether it is a ClientHello and its extensions block. The contract says
/// that the result is the decoded messages of the payload.
#[verifier::external_body]
fn parse_tls_plaintext(payload: &[u8]) -> (r: Option<Vec<TlsMessageSummary>>)
    ensures
        match r {
            Some(v) => tls_plaintext_messages(payload@) == Some(messages_view(v@)),
            None => tls_plaintext_messages(payload@) is None,
        },
{
    let (_, record) = tls_parser::parse_tls_plaintext(payload).ok()?;
    Some(record.msg.iter().map(|m| match m {
        M::Handshake(H::ClientHello(c)) => TlsMessageSummary::ClientHello(c.ext.map(|e| e.to_vec())),
        _ => TlsMessageSummary::Other,
    }).collect())
}

/// Calls `tls_parser::parse_tls_extensions` and keeps the server_name
/// entries, the encrypted_server_name extension and the type codes of
/// extensions the parser leaves undecoded. The contract says that the result
/// is the decoded extensions of the block.
#[verifier::external_body]
fn parse_tls_extensions(block: &[u8]) -> (r: Option<Vec<TlsExtensionSummary>>)
    ensures
        match r {
            Some(v) => tls_extensions(block@) == Some(extensions_view(v@)),
            None => tls_extensions(block@) is None,
        },
{
    let (_, extensions) = tls_parser::parse_tls_extensions(block).ok()?;
    Some(extensions.iter().map(|x| match x {
        X::SNI(entries) => TlsExtensionSummary::Sni(entries.iter().map(|(t, n)| (t.0, n.to_vec())).collect()),
        X::EncryptedServerName { .. } => TlsExtensionSummary::EncryptedServerName,
        X::Unknown(t, _) => TlsExtensionSummary::Unknown(t.0),
        _ => TlsExtensionSummary::Other,
    }).collect())
}

/// The extensions block of the first ClientHello among the messages:
/// `None` when there is no ClientHello, `Some(None)` when it has no extensions.
pub open spec fn first_client_hello(msgs: Seq<TlsMessageView>) -> Option<Option<Seq<u8>>>
    decreases msgs.len(),
{
    if msgs.len() == 0 {
        None
    } else {
        match msgs[0] {
            TlsMessageView::ClientHello(ext) => Some(ext),
            TlsMessageView::Other => first_client_hello(msgs.drop_first()),
        }
    }
}

pub open spec fn is_ech(x: TlsExtensionView) -> bool {
    match x {
        TlsExtensionView::EncryptedServerName => true,
        TlsExtensionView::Unknown(t) => t == RFC9849_ECH_EXTENSION_TYPE || t
            == DRAFT_ENCRYPTED_SERVER_NAME_TYPE,
        _ => false,
    }
}

/// Whether any extension carries an encrypted ClientHello or server name.
pub open spec fn spec_has_ech(exts: Seq<TlsExtensionView>) -> bool {
    exists|i: int| 0 <= i < exts.len() && is_ech(#[trigger] exts[i])
}

/// The first host_name entry (type 0) that is valid UTF-8, decoded.
pub open spec fn first_host_name(entries: Seq<(u8, Seq<u8>)>) -> Option<Seq<char>>
    decreases entries.len(),
{
    if entries.len() == 0 {
        None
    } else if entries[0].0 == 0 && valid_utf8(entries[0].1) {
        Some(decode_utf8(entries[0].1))
    } else {
        first_host_name(entries.drop_first())
    }
}

/// The first usable host name of the server_name extensions, in order.
pub open spec fn spec_sni(exts: Seq<TlsExtensionView>) -> Option<Seq<char>>
    decreases exts.len(),
{
    if exts.len() == 0 {
        None
    } else {
        match exts[0] {
            TlsExtensionView::Sni(entries) => match first_host_name(entries) {
                Some(n) => Some(n),
                None => spec_sni(exts.drop_first()),
            },
            _ => spec_sni(exts.drop_first()),
        }
    }
}

/// The domain a ClientHello with these extensions names: none when ECH is
/// present (even beside a cover SNI), else its first host_name.
pub open spec fn spec_domain_of_extensions(exts: Seq<TlsExtensionView>) -> Option<Seq<char>> {
    if spec_has_ech(exts) {
        None
    } else {
        spec_sni(exts)
    }
}

/// Law: a ClientHello that carries an encrypted ClientHello or an
/// encrypted server name names no domain, even beside a (cover) server name.
pub proof fn encrypted_hello_names_no_domain(exts: Seq<TlsExtensionView>, i: int)
    requires
        0 <= i < exts.len(),
        is_ech(exts[i]),
    ensures
        spec_domain_of_extensions(exts) is None,
{
}

/// The domain of a TCP payload: the SNI of the first ClientHello of its
/// first TLS record, by the decoding `tls_parser` does.
pub open spec fn spec_domain(payload: Seq<u8>) -> Option<Seq<char>> {
    match tls_plaintext_messages(payload) {
        None => None,
        Some(msgs) => match first_client_hello(msgs) {
            Some(Some(block)) => match tls_extensions(block) {
                Some(exts) => spec_domain_of_extensions(exts),
                None => None,
            },
            _ => None,
        },
    }
}

pub open spec fn opt_chars(o: Option<String>) -> Option<Seq<char>> {
    match o {
        Some(s) => Some(s@),
        None => None,
    }
}

/// Index of the first ClientHello among decoded messages.
pub fn first_client_hello_index(msgs: &Vec<TlsMessageSummary>) -> (r: Option<usize>)
    ensures
        match first_client_hello(messages_view(msgs@)) {
            None => r is None,
            Some(ext) => r matches Some(i) && i < msgs@.len() && msgs@[i as int]@
                == TlsMessageView::ClientHello(ext),
        },
{
    let ghost all = messages_view(msgs@);
    assert(all.subrange(0, all.len() as int) =~= all);
    let mut i: usize = 0;
    while i < msgs.len()
        invariant
            i <= msgs@.len(),
            all == messages_view(msgs@),
            first_client_hello(all) == first_client_hello(all.subrange(i as int, all.len() as int)),
        decreases msgs@.len() - i,
    {
        let ghost rest = all.subrange(i as int, all.len() as int);
        assert(rest[0] == msgs@[i as int]@);
        match &msgs[i] {
            TlsMessageSummary::ClientHello(_) => {
                return Some(i);
            },
            TlsMessageSummary::Other => {
                assert(rest.drop_first() =~= all.subrange(i + 1, all.len() as int));
            },
        }
        i += 1;
    }
    assert(all.subrange(i as int, all.len() as int).len() == 0);
    None
}

/// Whether any decoded extension carries ECH.
pub fn has_ech(exts: &Vec<TlsExtensionSummary>) -> (r: bool)
    ensures
        r == spec_has_ech(extensions_view(exts@)),
{
    let ghost v = extensions_view(exts@);
    let mut i: usize = 0;
    while i < exts.len()
        invariant
            i <= exts@.len(),
            v == extensions_view(exts@),
            forall|k: int| 0 <= k < i ==> !is_ech(#[trigger] v[k]),
        decreases exts@.len() - i,
    {
        let found = match &exts[i] {
            TlsExtensionSummary::EncryptedServerName => true,
            TlsExtensionSummary::Unknown(t) => *t == RFC9849_ECH_EXTENSION_TYPE || *t
                == DRAFT_ENCRYPTED_SERVER_NAME_TYPE,
            _ => false,
        };
        assert(v[i as int] == exts@[i as int]@);
        if found {
            return true;
        }
        i += 1;
    }
    false
}

fn first_host_name_exec(entries: &Vec<(u8, Vec<u8>)>) -> (r: Option<String>)
    ensures
        opt_chars(r) == first_host_name(entries_view(*entries)),
{
    let ghost v = entries_view(*entries);
    assert(v.subrange(0, v.len() as int) =~= v);
    let mut i: usize = 0;
    while i < entries.len()
        invariant
            i <= entries@.len(),
            v == entries_view(*entries),
            first_host_name(v) == first_host_name(v.subrange(i as int, v.len() as int)),
        decreases entries@.len() - i,
    {
        let ghost rest = v.subrange(i as int, v.len() as int);
        assert(rest[0] == (entries@[i as int].0, entries@[i as int].1@));
        if entries[i].0 == 0 {
            match utf8_string(entries[i].1.as_slice()) {
                Some(name) => {
                    return Some(name);
                },
                None => {},
            }
        }
        assert(rest.drop_first() =~= v.subrange(i + 1, v.len() as int));
        i += 1;
    }
    assert(v.subrange(i as int, v.len() as int).len() == 0);
    None
}

/// The first usable host name of the decoded server_name extensions.
pub fn extract_sni(exts: &Vec<TlsExtensionSummary>) -> (r: Option<String>)
    ensures
        opt_chars(r) == spec_sni(extensions_view(exts@)),
{
    let ghost v = extensions_view(exts@);
    assert(v.subrange(0, v.len() as int) =~= v);
    let mut i: usize = 0;
    while i < exts.len()
        invariant
            i <= exts@.len(),
            v == extensions_view(exts@),
            spec_sni(v) == spec_sni(v.subrange(i as int, v.len() as int)),
        decreases exts@.len() - i,
    {
        let ghost rest = v.subrange(i as int, v.len() as int);
        assert(rest[0] == exts@[i as int]@);
        assert(rest.drop_first() =~= v.subrange(i + 1, v.len() as int));
        match &exts[i] {
            TlsExtensionSummary::Sni(entries) => match first_host_name_exec(entries) {
                Some(name) => {
                    return Some(name);
                },
                None => {},
            },
            _ => {},
        }
        i += 1;
    }
    assert(v.subrange(i as int, v.len() as int).len() == 0);
    None
}

/// The domain named by decoded ClientHello extensions: `None` when ECH is
/// present, else the first host_name.
pub fn domain_of_extensions(exts: &Vec<TlsExtensionSummary>) -> (r: Option<String>)
    ensures
        opt_chars(r) == spec_domain_of_extensions(extensions_view(exts@)),
{
    if has_ech(exts) {
        None
    } else {
        extract_sni(exts)
    }
}

/// Domain parser for TLS ClientHello server names.
pub struct TlsDomainParser;

impl TlsDomainParser {
    pub fn new() -> (r: TlsDomainParser) {
        TlsDomainParser
    }

    /// The server name a TLS ClientHello payload announces.
    pub fn domain(&self, tcp_payload: &[u8]) -> (r: Option<String>)
        ensures
            opt_chars(r) == spec_domain(tcp_payload@),
    {
        let msgs = match parse_tls_plaintext(tcp_payload) {
            Some(m) => m,
            None => return None,
        };
        let i = match first_client_hello_index(&msgs) {
            Some(i) => i,
            None => return None,
        };
        let block = match &msgs[i] {
            TlsMessageSummary::ClientHello(Some(block)) => block,
            _ => return None,
        };
        match parse_tls_extensions(block.as_slice()) {
            Some(exts) => domain_of_extensions(&exts),
            None => None,
        }
    }
}

impl DomainParser for TlsDomainParser {
    fn parse_domain(&self, tcp_payload: &[u8]) -> (r: Option<String>)
        ensures
            opt_chars(r) == spec_domain(tcp_payload@),
    {
        self.domain(tcp_payload)
    }
}

} // verus!
