//! The wire format of a token-issuance response.
//!
//! A response is a record of named fields. Each field is written as a one-byte
//! name length, the name's bytes, and the field's value:
//! - `game_port`: the port as two bytes, little-endian;
//! - `token_bytes`: a two-byte little-endian length followed by that many bytes
//!   of a flattened netcode connect token, at most `TOKEN_MAX_BYTES` of them.
//!
//! A record holds each of the two fields exactly once, in either order, and
//! nothing else.
use vstd::prelude::*;

verus! {

/// The fixed size of a flattened netcode connect token: the most bytes the
/// `token_bytes` field may carry.
pub const TOKEN_MAX_BYTES: usize = 2048;

/// Whether lightyear_netcode reads a connect token from the bytes.
pub uninterp spec fn connect_token_accepts(b: Seq<u8>) -> bool;

/// Relies on lightyear_netcode's `ConnectToken::try_from_bytes`: whether it
/// reads a connect token from the bytes. It parses the bytes and nothing
/// else, so the answer depends on them alone.
#[verifier::external_body]
pub(crate) fn parses_as_connect_token(b: &[u8]) -> (r: bool)
    ensures
        r == connect_token_accepts(b@),
{
    lightyear_netcode::ConnectToken::try_from_bytes(b).is_ok()
}

/// The two fields of a response.
#[derive(Clone, Copy, Debug, PartialEq, Eq, Structural)]
pub enum Field {
    GamePort,
    TokenBytes,
}

/// Why bytes are not a response.
#[derive(Clone, Copy, Debug, PartialEq, Eq, Structural)]
pub enum DecodeError {
    /// The input ends inside a field.
    Truncated,
    /// A field name other than `game_port` and `token_bytes`.
    UnknownField,
    /// A field that occurs a second time.
    DuplicateField(Field),
    /// A field that does not occur.
    MissingField(Field),
    /// A token longer than `TOKEN_MAX_BYTES`.
    OversizedToken,
    /// Token bytes that do not parse as a connect token.
    InvalidToken,
}

/// What a response holds, as plain values.
pub struct TokenResponseView {
    pub game_port: u16,
    pub token_bytes: Seq<u8>,
}

/// The server's answer to an authentication request: the port on which the
/// game runs and the signed connect token, flattened to bytes.
pub struct TokenResponse {
    game_port: u16,
    token_bytes: Vec<u8>,
}

/// A token that a response may carry.
pub open spec fn valid_token(t: Seq<u8>) -> bool {
    t.len() <= TOKEN_MAX_BYTES && connect_token_accepts(t)
}

impl View for TokenResponse {
    type V = TokenResponseView;

    closed spec fn view(&self) -> TokenResponseView {
        TokenResponseView { game_port: self.game_port, token_bytes: self.token_bytes@ }
    }
}

/// `game_port` in ASCII.
pub open spec fn game_port_name() -> Seq<u8> {
    seq![103u8, 97u8, 109u8, 101u8, 95u8, 112u8, 111u8, 114u8, 116u8]
}

/// `token_bytes` in ASCII.
pub open spec fn token_bytes_name() -> Seq<u8> {
    seq![116u8, 111u8, 107u8, 101u8, 110u8, 95u8, 98u8, 121u8, 116u8, 101u8, 115u8]
}

/// A 16-bit value as two bytes, little-endian.
pub open spec fn le_bytes(v: nat) -> Seq<u8> {
    seq![(v % 256) as u8, ((v / 256) % 256) as u8]
}

/// The value of two bytes read little-endian.
pub open spec fn le_value(lo: u8, hi: u8) -> nat {
    lo as nat + hi as nat * 256
}

/// One field: its name's length, its name, its value.
pub open spec fn field_bytes(name: Seq<u8>, value: Seq<u8>) -> Seq<u8> {
    seq![name.len() as u8] + name + value
}

/// The `game_port` field carrying `port`.
pub open spec fn port_field(port: u16) -> Seq<u8> {
    field_bytes(game_port_name(), le_bytes(port as nat))
}

/// The `token_bytes` field carrying `t`.
pub open spec fn token_field(t: Seq<u8>) -> Seq<u8> {
    field_bytes(token_bytes_name(), le_bytes(t.len()) + t)
}

/// The bytes that encode a response.
pub open spec fn encoded(v: TokenResponseView) -> Seq<u8> {
    port_field(v.game_port) + token_field(v.token_bytes)
}

/// What a record yields once every field has been read.
pub open spec fn finish(port: Option<u16>, token: Option<Seq<u8>>) -> Result<
    TokenResponseView,
    DecodeError,
> {
    match (port, token) {
        (None, _) => Err(DecodeError::MissingField(Field::GamePort)),
        (Some(_), None) => Err(DecodeError::MissingField(Field::TokenBytes)),
        (Some(p), Some(t)) => if connect_token_accepts(t) {
            Ok(TokenResponseView { game_port: p, token_bytes: t })
        } else {
            Err(DecodeError::InvalidToken)
        },
    }
}

/// Decoding the fields in `b`, given the fields read before it.
pub open spec fn decode_fields(b: Seq<u8>, port: Option<u16>, token: Option<Seq<u8>>) -> Result<
    TokenResponseView,
    DecodeError,
>
    decreases b.len(),
{
    if b.len() == 0 {
        finish(port, token)
    } else if b.len() < 1 + b[0] {
        Err(DecodeError::Truncated)
    } else {
        let name = b.subrange(1, 1 + b[0]);
        let rest = b.subrange(1 + b[0], b.len() as int);
        if name == game_port_name() {
            if port is Some {
                Err(DecodeError::DuplicateField(Field::GamePort))
            } else if rest.len() < 2 {
                Err(DecodeError::Truncated)
            } else {
                decode_fields(
                    rest.subrange(2, rest.len() as int),
                    Some(le_value(rest[0], rest[1]) as u16),
                    token,
                )
            }
        } else if name == token_bytes_name() {
            if token is Some {
                Err(DecodeError::DuplicateField(Field::TokenBytes))
            } else if rest.len() < 2 {
                Err(DecodeError::Truncated)
            } else {
                let n = le_value(rest[0], rest[1]) as int;
                if n > TOKEN_MAX_BYTES {
                    Err(DecodeError::OversizedToken)
                } else if rest.len() < 2 + n {
                    Err(DecodeError::Truncated)
                } else {
                    decode_fields(
                        rest.subrange(2 + n, rest.len() as int),
                        port,
                        Some(rest.subrange(2, 2 + n)),
                    )
                }
            }
        } else {
            Err(DecodeError::UnknownField)
        }
    }
}

/// Decoding a whole record.
pub open spec fn decoded(b: Seq<u8>) -> Result<TokenResponseView, DecodeError> {
    decode_fields(b, None, None)
}

/// A decoding result, seen through the response's view.
pub open spec fn result_view(r: Result<TokenResponse, DecodeError>) -> Result<
    TokenResponseView,
    DecodeError,
> {
    match r {
        Ok(v) => Ok(v@),
        Err(e) => Err(e),
    }
}

spec fn token_view(t: Option<Vec<u8>>) -> Option<Seq<u8>> {
    match t {
        Some(v) => Some(v@),
        None => None,
    }
}

/// Whether `b[start..start + name.len()]` is `name`.
fn bytes_match(b: &[u8], start: usize, name: &[u8]) -> (r: bool)
    requires
        start + name@.len() <= b@.len(),
    ensures
        r == (b@.subrange(start as int, start + name@.len()) == name@),
{
    let blen = b.len();
    let mut k: usize = 0;
    while k < name.len()
        invariant
            blen == b@.len(),
            k <= name@.len(),
            start + name@.len() <= b@.len(),
            forall|j: int| 0 <= j < k ==> b@[start + j] == name@[j],
        decreases name@.len() - k,
    {
        assert(start + k < b@.len());
        if b[start + k] != name[k] {
            assert(b@.subrange(start as int, start + name@.len())[k as int] != name@[k as int]);
            return false;
        }
        k = k + 1;
    }
    assert(b@.subrange(start as int, start + name@.len()) =~= name@);
    true
}

fn game_port_literal() -> (r: Vec<u8>)
    ensures
        r@ == game_port_name(),
{
    let r: Vec<u8> = vec![103u8, 97u8, 109u8, 101u8, 95u8, 112u8, 111u8, 114u8, 116u8];
    assert(r@ =~= game_port_name());
    r
}

fn token_bytes_literal() -> (r: Vec<u8>)
    ensures
        r@ == token_bytes_name(),
{
    let r: Vec<u8> = vec![116u8, 111u8, 107u8, 101u8, 110u8, 95u8, 98u8, 121u8, 116u8, 101u8, 115u8];
    assert(r@ =~= token_bytes_name());
    r
}

/// Reads two bytes little-endian.
fn read_le(lo: u8, hi: u8) -> (r: u16)
    ensures
        r as nat == le_value(lo, hi),
{
    assert(lo as nat + hi as nat * 256 <= 65535) by (nonlinear_arith)
        requires
            lo <= 255,
            hi <= 255,
    ;
    lo as u16 + hi as u16 * 256
}

/// Appends `v` as two bytes, little-endian.
fn push_le(out: &mut Vec<u8>, v: u16)
    ensures
        final(out)@ == old(out)@ + le_bytes(v as nat),
{
    out.push((v % 256) as u8);
    out.push((v / 256) as u8);
    assert(final(out)@ =~= old(out)@ + le_bytes(v as nat));
}

/// Appends all of `src`.
fn push_all(out: &mut Vec<u8>, src: &[u8])
    ensures
        final(out)@ == old(out)@ + src@,
{
    let mut k: usize = 0;
    while k < src.len()
        invariant
            k <= src@.len(),
            out@ == old(out)@ + src@.subrange(0, k as int),
        decreases src@.len() - k,
    {
        out.push(src[k]);
        k = k + 1;
        assert(out@ =~= old(out)@ + src@.subrange(0, k as int));
    }
    assert(src@.subrange(0, src@.len() as int) =~= src@);
}

/// The bytes `b[start..end]`.
pub(crate) fn copy_range(b: &[u8], start: usize, end: usize) -> (r: Vec<u8>)
    requires
        start <= end <= b@.len(),
    ensures
        r@ == b@.subrange(start as int, end as int),
{
    let mut r: Vec<u8> = Vec::new();
    let mut k: usize = start;
    while k < end
        invariant
            start <= k <= end,
            end <= b@.len(),
            r@ == b@.subrange(start as int, k as int),
        decreases end - k,
    {
        r.push(b[k]);
        k = k + 1;
        assert(r@ =~= b@.subrange(start as int, k as int));
    }
    r
}

impl TokenResponse {
    #[verifier::type_invariant]
    spec fn well_formed(self) -> bool {
        valid_token(self.token_bytes@)
    }

    /// A response carrying `token_bytes`, which must be a connect token of at
    /// most `TOKEN_MAX_BYTES` bytes.
    pub fn new(game_port: u16, token_bytes: Vec<u8>) -> (r: Result<TokenResponse, DecodeError>)
        ensures
            token_bytes@.len() > TOKEN_MAX_BYTES ==> r == Err::<TokenResponse, DecodeError>(
                DecodeError::OversizedToken,
            ),
            token_bytes@.len() <= TOKEN_MAX_BYTES && !connect_token_accepts(token_bytes@) ==> r
                == Err::<TokenResponse, DecodeError>(DecodeError::InvalidToken),
            valid_token(token_bytes@) ==> r is Ok && r->Ok_0@ == (TokenResponseView {
                game_port,
                token_bytes: token_bytes@,
            }),
    {
        if token_bytes.len() > TOKEN_MAX_BYTES {
            Err(DecodeError::OversizedToken)
        } else if !parses_as_connect_token(token_bytes.as_slice()) {
            Err(DecodeError::InvalidToken)
        } else {
            Ok(TokenResponse { game_port, token_bytes })
        }
    }

    /// The port on which the game runs.
    pub fn game_port(&self) -> (r: u16)
        ensures
            r == self@.game_port,
    {
        self.game_port
    }

    /// The flattened connect token.
    pub fn token_bytes(&self) -> (r: &Vec<u8>)
        ensures
            r@ == self@.token_bytes,
            valid_token(r@),
    {
        proof {
            use_type_invariant(self);
        }
        &self.token_bytes
    }

    /// Encodes the response as a record of its two fields.
    pub fn serialize(&self) -> (r: Vec<u8>)
        ensures
            r@ == encoded(self@),
            valid_token(self@.token_bytes),
    {
        proof {
            use_type_invariant(self);
        }
        let mut out: Vec<u8> = Vec::new();
        let port_name = game_port_literal();
        out.push(9u8);
        push_all(&mut out, port_name.as_slice());
        push_le(&mut out, self.game_port);
        let token_name = token_bytes_literal();
        out.push(11u8);
        push_all(&mut out, token_name.as_slice());
        push_le(&mut out, self.token_bytes.len() as u16);
        push_all(&mut out, self.token_bytes.as_slice());
        assert(out@ =~= encoded(self@));
        out
    }

    /// Decodes a record: each field exactly once, nothing else, and token bytes
    /// that parse as a connect token.
    #[verifier::rlimit(40)]
    pub fn deserialize(bytes: &[u8]) -> (r: Result<TokenResponse, DecodeError>)
        ensures
            result_view(r) == decoded(bytes@),
    {
        let port_name = game_port_literal();
        let token_name = token_bytes_literal();
        let mut i: usize = 0;
        let mut port: Option<u16> = None;
        let mut token: Option<Vec<u8>> = None;
        assert(bytes@.subrange(0, bytes@.len() as int) =~= bytes@);
        while i < bytes.len()
            invariant
                i <= bytes@.len(),
                port_name@ == game_port_name(),
                token_name@ == token_bytes_name(),
                decoded(bytes@) == decode_fields(
                    bytes@.subrange(i as int, bytes@.len() as int),
                    port,
                    token_view(token),
                ),
                token is Some ==> token->0@.len() <= TOKEN_MAX_BYTES,
            decreases bytes@.len() - i,
        {
            let ghost b = bytes@.subrange(i as int, bytes@.len() as int);
            assert(b[0] == bytes@[i as int]);
            let n = bytes[i] as usize;
            if bytes.len() - i - 1 < n {
                return Err(DecodeError::Truncated);
            }
            let start = i + 1;
            let end = start + n;
            let ghost rest = b.subrange(1 + b[0], b.len() as int);
            assert(b.subrange(1, 1 + b[0]) =~= bytes@.subrange(start as int, end as int));
            assert(rest =~= bytes@.subrange(end as int, bytes@.len() as int));
            let is_port = n == 9 && bytes_match(bytes, start, port_name.as_slice());
            let is_token = n == 11 && bytes_match(bytes, start, token_name.as_slice());
            if is_port {
                assert(b.subrange(1, 1 + b[0]) == game_port_name());
                if port.is_some() {
                    return Err(DecodeError::DuplicateField(Field::GamePort));
                }
                if bytes.len() - end < 2 {
                    return Err(DecodeError::Truncated);
                }
                let v = read_le(bytes[end], bytes[end + 1]);
                assert(rest[0] == bytes@[end as int] && rest[1] == bytes@[end + 1]);
                assert(rest.subrange(2, rest.len() as int) =~= bytes@.subrange(
                    end + 2,
                    bytes@.len() as int,
                ));
                port = Some(v);
                i = end + 2;
            } else if is_token {
                assert(b.subrange(1, 1 + b[0]) == token_bytes_name());
                assert(b.subrange(1, 1 + b[0]) != game_port_name()) by {
                    assert(b.subrange(1, 1 + b[0]).len() != game_port_name().len());
                }
                if token.is_some() {
                    return Err(DecodeError::DuplicateField(Field::TokenBytes));
                }
                if bytes.len() - end < 2 {
                    return Err(DecodeError::Truncated);
                }
                let len = read_le(bytes[end], bytes[end + 1]) as usize;
                assert(rest[0] == bytes@[end as int] && rest[1] == bytes@[end + 1]);
                if len > TOKEN_MAX_BYTES {
                    return Err(DecodeError::OversizedToken);
                }
                if bytes.len() - end - 2 < len {
                    return Err(DecodeError::Truncated);
                }
                let t = copy_range(bytes, end + 2, end + 2 + len);
                assert(rest.subrange(2, 2 + len) =~= t@);
                assert(rest.subrange(2 + len, rest.len() as int) =~= bytes@.subrange(
                    end + 2 + len,
                    bytes@.len() as int,
                ));
                token = Some(t);
                i = end + 2 + len;
            } else {
                assert(b.subrange(1, 1 + b[0]) != game_port_name()) by {
                    if n == 9 {
                        assert(bytes@.subrange(start as int, end as int) != port_name@);
                    } else {
                        assert(b.subrange(1, 1 + b[0]).len() != game_port_name().len());
                    }
                }
                assert(b.subrange(1, 1 + b[0]) != token_bytes_name()) by {
                    if n == 11 {
                        assert(bytes@.subrange(start as int, end as int) != token_name@);
                    } else {
                        assert(b.subrange(1, 1 + b[0]).len() != token_bytes_name().len());
                    }
                }
                return Err(DecodeError::UnknownField);
            }
        }
        assert(bytes@.subrange(i as int, bytes@.len() as int).len() == 0);
        match (port, token) {
            (None, _) => Err(DecodeError::MissingField(Field::GamePort)),
            (Some(_), None) => Err(DecodeError::MissingField(Field::TokenBytes)),
            (Some(p), Some(t)) => {
                if parses_as_connect_token(t.as_slice()) {
                    Ok(TokenResponse { game_port: p, token_bytes: t })
                } else {
                    Err(DecodeError::InvalidToken)
                }
            },
        }
    }
}


/// A field as it may stand in a record, for stating what decoding makes of
/// records in general.
pub enum WireField {
    Port(u16),
    Token(Seq<u8>),
}

/// The bytes of one field.
pub open spec fn wire_field_bytes(f: WireField) -> Seq<u8> {
    match f {
        WireField::Port(p) => port_field(p),
        WireField::Token(t) => token_field(t),
    }
}

/// The bytes of a record made of `fs`, in order.
pub open spec fn record(fs: Seq<WireField>) -> Seq<u8>
    decreases fs.len(),
{
    if fs.len() == 0 {
        Seq::empty()
    } else {
        wire_field_bytes(fs[0]) + record(fs.drop_first())
    }
}

/// Every token field of `fs` fits the length prefix.
pub open spec fn tokens_fit(fs: Seq<WireField>) -> bool {
    forall|i: int| 0 <= i < fs.len() && fs[i] is Token ==> fs[i]->Token_0.len() <= TOKEN_MAX_BYTES
}

/// How many `game_port` fields `fs` holds.
pub open spec fn port_count(fs: Seq<WireField>) -> nat
    decreases fs.len(),
{
    if fs.len() == 0 {
        0
    } else {
        (if fs[0] is Port { 1nat } else { 0nat }) + port_count(fs.drop_first())
    }
}

/// How many `token_bytes` fields `fs` holds.
pub open spec fn token_count(fs: Seq<WireField>) -> nat
    decreases fs.len(),
{
    if fs.len() == 0 {
        0
    } else {
        (if fs[0] is Token { 1nat } else { 0nat }) + token_count(fs.drop_first())
    }
}

proof fn lemma_le_round_trip(v: nat)
    requires
        v < 65536,
    ensures
        le_value(le_bytes(v)[0], le_bytes(v)[1]) == v,
{
    assert((v % 256) + ((v / 256) % 256) * 256 == v) by (nonlinear_arith)
        requires
            v < 65536,
    ;
}

/// Decoding steps over one field.
#[verifier::rlimit(40)]
proof fn lemma_field_step(f: WireField, rest: Seq<u8>, port: Option<u16>, token: Option<Seq<u8>>)
    requires
        f is Token ==> f->Token_0.len() <= TOKEN_MAX_BYTES,
    ensures
        decode_fields(wire_field_bytes(f) + rest, port, token) == match f {
            WireField::Port(p) => if port is Some {
                Err(DecodeError::DuplicateField(Field::GamePort))
            } else {
                decode_fields(rest, Some(p), token)
            },
            WireField::Token(t) => if token is Some {
                Err(DecodeError::DuplicateField(Field::TokenBytes))
            } else {
                decode_fields(rest, port, Some(t))
            },
        },
{
    let b = wire_field_bytes(f) + rest;
    match f {
        WireField::Port(p) => {
            let lb = le_bytes(p as nat);
            lemma_le_round_trip(p as nat);
            assert(b[0] == 9);
            assert(b.subrange(1, 10) =~= game_port_name());
            let r = b.subrange(10, b.len() as int);
            assert(r =~= lb + rest);
            assert(r.subrange(2, r.len() as int) =~= rest);
            assert(r[0] == lb[0] && r[1] == lb[1]);
        },
        WireField::Token(t) => {
            let lb = le_bytes(t.len());
            lemma_le_round_trip(t.len());
            assert(b[0] == 11);
            assert(b.subrange(1, 12) =~= token_bytes_name());
            assert(b.subrange(1, 12).len() != game_port_name().len());
            let r = b.subrange(12, b.len() as int);
            assert(r =~= lb + t + rest);
            assert(r[0] == lb[0] && r[1] == lb[1]);
            let n = t.len() as int;
            assert(r.subrange(2, 2 + n) =~= t);
            assert(r.subrange(2 + n, r.len() as int) =~= rest);
        },
    }
}

proof fn lemma_record_cons(fs: Seq<WireField>, tail: Seq<u8>)
    requires
        fs.len() > 0,
    ensures
        record(fs) + tail == wire_field_bytes(fs[0]) + (record(fs.drop_first()) + tail),
{
    assert(record(fs) + tail =~= wire_field_bytes(fs[0]) + (record(fs.drop_first()) + tail));
}

/// Serializing a valid response and decoding the bytes gives the response
/// back.
pub proof fn lemma_round_trip(v: TokenResponseView)
    requires
        valid_token(v.token_bytes),
    ensures
        decoded(encoded(v)) == Ok::<TokenResponseView, DecodeError>(v),
{
    let t = token_field(v.token_bytes);
    lemma_field_step(WireField::Port(v.game_port), t, None, None);
    assert(token_field(v.token_bytes) == token_field(v.token_bytes) + Seq::<u8>::empty()) by {
        assert(token_field(v.token_bytes) =~= token_field(v.token_bytes) + Seq::<u8>::empty());
    }
    lemma_field_step(
        WireField::Token(v.token_bytes),
        Seq::<u8>::empty(),
        Some(v.game_port),
        None,
    );
}

proof fn lemma_no_port_fails(fs: Seq<WireField>, token: Option<Seq<u8>>)
    requires
        tokens_fit(fs),
        port_count(fs) == 0,
    ensures
        decode_fields(record(fs), None, token) is Err,
    decreases fs.len(),
{
    if fs.len() > 0 {
        let tl = fs.drop_first();
        assert(tokens_fit(tl)) by {
            assert forall|i: int| 0 <= i < tl.len() && tl[i] is Token implies tl[i]->Token_0.len()
                <= TOKEN_MAX_BYTES by {
                assert(tl[i] == fs[i + 1]);
            }
        }
        assert(record(fs) == wire_field_bytes(fs[0]) + record(tl));
        lemma_field_step(fs[0], record(tl), None, token);
        if let WireField::Token(t) = fs[0] {
            if token is None {
                lemma_no_port_fails(tl, Some(t));
            }
        }
    }
}

proof fn lemma_no_token_fails(fs: Seq<WireField>, port: Option<u16>)
    requires
        tokens_fit(fs),
        token_count(fs) == 0,
    ensures
        decode_fields(record(fs), port, None) is Err,
    decreases fs.len(),
{
    if fs.len() > 0 {
        let tl = fs.drop_first();
        assert(tokens_fit(tl)) by {
            assert forall|i: int| 0 <= i < tl.len() && tl[i] is Token implies tl[i]->Token_0.len()
                <= TOKEN_MAX_BYTES by {
                assert(tl[i] == fs[i + 1]);
            }
        }
        assert(record(fs) == wire_field_bytes(fs[0]) + record(tl));
        lemma_field_step(fs[0], record(tl), port, None);
        if let WireField::Port(p) = fs[0] {
            if port is None {
                lemma_no_token_fails(tl, Some(p));
            }
        }
    }
}

/// A record without a `game_port` field, or without a `token_bytes` field,
/// does not decode.
pub proof fn lemma_missing_field_rejected(fs: Seq<WireField>)
    requires
        tokens_fit(fs),
        port_count(fs) == 0 || token_count(fs) == 0,
    ensures
        decoded(record(fs)) is Err,
{
    if port_count(fs) == 0 {
        lemma_no_port_fails(fs, None);
    } else {
        lemma_no_token_fails(fs, None);
    }
}

proof fn lemma_duplicates_fail(fs: Seq<WireField>, port: Option<u16>, token: Option<Seq<u8>>)
    requires
        tokens_fit(fs),
        port_count(fs) + (if port is Some { 1nat } else { 0nat }) >= 2 || token_count(fs) + (
        if token is Some {
            1nat
        } else {
            0nat
        }) >= 2,
    ensures
        decode_fields(record(fs), port, token) is Err,
    decreases fs.len(),
{
    if fs.len() > 0 {
        let tl = fs.drop_first();
        assert(tokens_fit(tl)) by {
            assert forall|i: int| 0 <= i < tl.len() && tl[i] is Token implies tl[i]->Token_0.len()
                <= TOKEN_MAX_BYTES by {
                assert(tl[i] == fs[i + 1]);
            }
        }
        assert(record(fs) == wire_field_bytes(fs[0]) + record(tl));
        lemma_field_step(fs[0], record(tl), port, token);
        match fs[0] {
            WireField::Port(p) => {
                if port is None {
                    lemma_duplicates_fail(tl, Some(p), token);
                }
            },
            WireField::Token(t) => {
                if token is None {
                    lemma_duplicates_fail(tl, port, Some(t));
                }
            },
        }
    }
}

/// A record that holds either field twice does not decode, whatever else
/// it holds.
pub proof fn lemma_duplicate_field_rejected(fs: Seq<WireField>)
    requires
        tokens_fit(fs),
        port_count(fs) >= 2 || token_count(fs) >= 2,
    ensures
        decoded(record(fs)) is Err,
{
    lemma_duplicates_fail(fs, None, None);
}

proof fn lemma_unknown_fails(
    fs: Seq<WireField>,
    name: Seq<u8>,
    value: Seq<u8>,
    port: Option<u16>,
    token: Option<Seq<u8>>,
)
    requires
        tokens_fit(fs),
        name.len() <= 255,
        name != game_port_name(),
        name != token_bytes_name(),
    ensures
        decode_fields(record(fs) + field_bytes(name, value), port, token) is Err,
    decreases fs.len(),
{
    let x = field_bytes(name, value);
    if fs.len() == 0 {
        assert(record(fs) + x =~= x);
        assert(x[0] == name.len() as u8);
        assert(x.subrange(1, 1 + x[0]) =~= name);
    } else {
        let tl = fs.drop_first();
        assert(tokens_fit(tl)) by {
            assert forall|i: int| 0 <= i < tl.len() && tl[i] is Token implies tl[i]->Token_0.len()
                <= TOKEN_MAX_BYTES by {
                assert(tl[i] == fs[i + 1]);
            }
        }
        lemma_record_cons(fs, x);
        lemma_field_step(fs[0], record(tl) + x, port, token);
        match fs[0] {
            WireField::Port(p) => {
                if port is None {
                    lemma_unknown_fails(tl, name, value, Some(p), token);
                }
            },
            WireField::Token(t) => {
                if token is None {
                    lemma_unknown_fails(tl, name, value, port, Some(t));
                }
            },
        }
    }
}

/// A record in which a field of any other name follows known fields does not
/// decode: names are matched exactly against `game_port` and `token_bytes`.
pub proof fn lemma_unknown_field_rejected(fs: Seq<WireField>, name: Seq<u8>, value: Seq<u8>)
    requires
        tokens_fit(fs),
        name.len() <= 255,
        name != game_port_name(),
        name != token_bytes_name(),
    ensures
        decoded(record(fs) + field_bytes(name, value)) is Err,
{
    lemma_unknown_fails(fs, name, value, None, None);
}

proof fn lemma_le_inverse(lo: u8, hi: u8)
    ensures
        le_value(lo, hi) < 65536,
        le_bytes(le_value(lo, hi)) == seq![lo, hi],
        le_bytes((le_value(lo, hi) as u16) as nat) == seq![lo, hi],
{
    let v = le_value(lo, hi);
    assert(v % 256 == lo as nat && (v / 256) % 256 == hi as nat && v < 65536) by (nonlinear_arith)
        requires
            v == lo as nat + hi as nat * 256,
            lo <= 255,
            hi <= 255,
    ;
    assert(le_bytes(v) =~= seq![lo, hi]);
}

/// What a successful decoding step read: the first field of `b`.
#[verifier::rlimit(40)]
proof fn lemma_first_field(b: Seq<u8>, port: Option<u16>, token: Option<Seq<u8>>)
    requires
        b.len() > 0,
        decode_fields(b, port, token) is Ok,
    ensures
        ({
            let rest = b.subrange(1 + b[0], b.len() as int);
            let p = le_value(rest[0], rest[1]) as u16;
            let n = le_value(rest[0], rest[1]) as int;
            ||| port is None && rest.len() >= 2 && b == port_field(p) + rest.subrange(2, rest.len() as int)
                && decode_fields(b, port, token) == decode_fields(
                rest.subrange(2, rest.len() as int),
                Some(p),
                token,
            )
            ||| token is None && rest.len() >= 2 + n && n <= TOKEN_MAX_BYTES && b == token_field(
                rest.subrange(2, 2 + n),
            ) + rest.subrange(2 + n, rest.len() as int) && decode_fields(b, port, token)
                == decode_fields(rest.subrange(2 + n, rest.len() as int), port, Some(rest.subrange(2, 2 + n)))
        }),
{
    let name = b.subrange(1, 1 + b[0]);
    let rest = b.subrange(1 + b[0], b.len() as int);
    lemma_le_inverse(rest[0], rest[1]);
    assert(name.len() == b[0] as int);
    if name == game_port_name() {
        assert(game_port_name().len() == 9);
        assert(b[0] == 9);
        let p = le_value(rest[0], rest[1]) as u16;
        assert(b =~= port_field(p) + rest.subrange(2, rest.len() as int));
    } else {
        assert(name == token_bytes_name());
        assert(token_bytes_name().len() == 11);
        assert(b[0] == 11);
        let n = le_value(rest[0], rest[1]) as int;
        let t = rest.subrange(2, 2 + n);
        assert(t.len() == n);
        assert(b =~= token_field(t) + rest.subrange(2 + n, rest.len() as int));
    }
}

/// Bytes decode to a response only when they are its two fields, in one
/// order or the other, and its token is one a response may carry.
#[verifier::rlimit(40)]
pub proof fn lemma_decoded_is_encoding(b: Seq<u8>)
    requires
        decoded(b) is Ok,
    ensures
        valid_token(decoded(b)->Ok_0.token_bytes),
        b == encoded(decoded(b)->Ok_0) || b == token_field(decoded(b)->Ok_0.token_bytes) + port_field(
            decoded(b)->Ok_0.game_port,
        ),
{
    let v = decoded(b)->Ok_0;
    assert(b.len() > 0);
    lemma_first_field(b, None, None);
    let rest = b.subrange(1 + b[0], b.len() as int);
    let n = le_value(rest[0], rest[1]) as int;
    if rest.len() >= 2 && b == port_field(le_value(rest[0], rest[1]) as u16) + rest.subrange(
        2,
        rest.len() as int,
    ) && decode_fields(b, None, None) == decode_fields(
        rest.subrange(2, rest.len() as int),
        Some(le_value(rest[0], rest[1]) as u16),
        None,
    ) {
        let p = le_value(rest[0], rest[1]) as u16;
        let b1 = rest.subrange(2, rest.len() as int);
        assert(b1.len() > 0);
        lemma_first_field(b1, Some(p), None);
        let rest1 = b1.subrange(1 + b1[0], b1.len() as int);
        let n1 = le_value(rest1[0], rest1[1]) as int;
        let t = rest1.subrange(2, 2 + n1);
        let b2 = rest1.subrange(2 + n1, rest1.len() as int);
        if b2.len() > 0 {
            lemma_first_field(b2, Some(p), Some(t));
        }
        assert(b2.len() == 0);
        assert(b1 =~= token_field(t));
        assert(b == encoded(v));
    } else {
        let t = rest.subrange(2, 2 + n);
        let b1 = rest.subrange(2 + n, rest.len() as int);
        assert(b1.len() > 0);
        lemma_first_field(b1, None, Some(t));
        let rest1 = b1.subrange(1 + b1[0], b1.len() as int);
        let p = le_value(rest1[0], rest1[1]) as u16;
        let b2 = rest1.subrange(2, rest1.len() as int);
        if b2.len() > 0 {
            lemma_first_field(b2, Some(p), Some(t));
        }
        assert(b2.len() == 0);
        assert(b1 =~= port_field(p));
    }
}

/// The two fields of a valid response in the other order decode to it too.
pub proof fn lemma_swapped_order_decodes(v: TokenResponseView)
    requires
        valid_token(v.token_bytes),
    ensures
        decoded(token_field(v.token_bytes) + port_field(v.game_port)) == Ok::<
            TokenResponseView,
            DecodeError,
        >(v),
{
    let pf = port_field(v.game_port);
    lemma_field_step(WireField::Token(v.token_bytes), pf, None, None);
    assert(pf =~= pf + Seq::<u8>::empty());
    lemma_field_step(WireField::Port(v.game_port), Seq::<u8>::empty(), None, Some(v.token_bytes));
}

} // verus!
