//! Credentials and the decisions the CLOB client makes before it talks to
//! the exchange: loading credentials, preparing authentication, validating
//! token ids and building the portfolio-value query.

use crate::book::ChangeSide;
use crate::foreign::{address_of, parse_address, parse_u256, parse_uuid, signer_address, signer_address_of, u256_of, uuid_of};
use crate::text::{hex_string, hex_text, joined, lower, lowercase, owned, trim, trimmed};
use vstd::prelude::*;

verus! {

/// Credentials of a Polymarket account.
#[derive(Debug, Clone)]
pub struct Credentials {
    pub address: String,
    pub api_key: String,
    pub api_secret: String,
    pub passphrase: String,
    pub private_key: String,
    pub funder_address: Option<String>,
}

/// Character view of optional text.
pub open spec fn opt_text(o: Option<String>) -> Option<Seq<char>> {
    match o {
        Some(s) => Some(s@),
        None => None,
    }
}

/// The credentials as character sequences.
pub struct CredentialsView {
    pub address: Seq<char>,
    pub api_key: Seq<char>,
    pub api_secret: Seq<char>,
    pub passphrase: Seq<char>,
    pub private_key: Seq<char>,
    pub funder_address: Option<Seq<char>>,
}

impl View for Credentials {
    type V = CredentialsView;

    open spec fn view(&self) -> CredentialsView {
        CredentialsView {
            address: self.address@,
            api_key: self.api_key@,
            api_secret: self.api_secret@,
            passphrase: self.passphrase@,
            private_key: self.private_key@,
            funder_address: opt_text(self.funder_address),
        }
    }
}

/// Side of an order.
#[derive(Debug, Clone, Copy, PartialEq, Eq, Structural)]
#[allow(non_camel_case_types)]
pub enum Side {
    BUY,
    SELL,
}

/// How orders are signed: by the key's own account, through a proxy
/// wallet, or through a Gnosis Safe.
#[derive(Debug, Clone, Copy, PartialEq, Eq, Structural)]
pub enum SignatureKind {
    Eoa,
    Proxy,
    GnosisSafe,
}

/// A 256-bit token id as four 64-bit limbs, least significant first.
#[derive(Debug, Clone, Copy, PartialEq, Eq, Structural)]
pub struct TokenId {
    pub w0: u64,
    pub w1: u64,
    pub w2: u64,
    pub w3: u64,
}

/// The token id with the given limbs.
pub open spec fn token_of(l: (u64, u64, u64, u64)) -> TokenId {
    TokenId { w0: l.0, w1: l.1, w2: l.2, w3: l.3 }
}

/// What parsing `text` as a token id gives, with `prefix` before the
/// parser's error text.
pub open spec fn token_id_result(text: Seq<char>, prefix: Seq<char>) -> Result<TokenId, Seq<char>> {
    match u256_of(text) {
        Ok(l) => Ok(token_of(l)),
        Err(e) => Err(prefix + e),
    }
}

/// The number a token id stands for: its limbs, least significant first,
/// as digits in base 2^64.
pub open spec fn token_value(t: TokenId) -> int {
    t.w0 + t.w1 * 0x1_0000_0000_0000_0000int + t.w2 * 0x1_0000_0000_0000_0000_0000_0000_0000_0000int
        + t.w3 * 0x1_0000_0000_0000_0000_0000_0000_0000_0000_0000_0000_0000_0000int
}

/// Law: a token id that parses has the parser's limbs in the parser's
/// order, so it stands for the parsed number; a text that does not parse
/// gives the prefix followed by the parser's error.
pub proof fn law_token_limbs_in_order(text: Seq<char>, prefix: Seq<char>)
    ensures
        u256_of(text) is Ok ==> ({
            let l = u256_of(text)->Ok_0;
            &&& token_id_result(text, prefix) is Ok
            &&& token_id_result(text, prefix)->Ok_0.w0 == l.0
            &&& token_id_result(text, prefix)->Ok_0.w1 == l.1
            &&& token_id_result(text, prefix)->Ok_0.w2 == l.2
            &&& token_id_result(text, prefix)->Ok_0.w3 == l.3
            &&& token_value(token_id_result(text, prefix)->Ok_0) == l.0 + l.1
                * 0x1_0000_0000_0000_0000int + l.2 * 0x1_0000_0000_0000_0000_0000_0000_0000_0000int
                + l.3 * 0x1_0000_0000_0000_0000_0000_0000_0000_0000_0000_0000_0000_0000int
        }),
        u256_of(text) is Err ==> token_id_result(text, prefix) == Err::<TokenId, Seq<char>>(
            prefix + u256_of(text)->Err_0,
        ),
{
}

/// Character view of a token-id result.
pub open spec fn token_result_view(r: Result<TokenId, String>) -> Result<TokenId, Seq<char>> {
    match r {
        Ok(t) => Ok(t),
        Err(e) => Err(e@),
    }
}

/// Parses `text` as a token id; an error is `prefix` followed by the
/// parser's error text.
pub fn token_id_with_prefix(text: &str, prefix: &str) -> (r: Result<TokenId, String>)
    ensures
        token_result_view(r) == token_id_result(text@, prefix@),
        u256_of(text@) is Ok ==> r is Ok && r->Ok_0.w0 == u256_of(text@)->Ok_0.0 && r->Ok_0.w1
            == u256_of(text@)->Ok_0.1 && r->Ok_0.w2 == u256_of(text@)->Ok_0.2 && r->Ok_0.w3
            == u256_of(text@)->Ok_0.3,
        u256_of(text@) is Err ==> r is Err && r->Err_0@ == prefix@ + u256_of(text@)->Err_0,
{
    match parse_u256(text) {
        Ok(l) => Ok(TokenId { w0: l.0, w1: l.1, w2: l.2, w3: l.3 }),
        Err(e) => Err(joined(prefix, e.as_str())),
    }
}

/// The side of an open order as the exchange reports it; a side other than
/// buy or sell is read as a buy.
pub fn order_side(side: ChangeSide) -> (s: Side)
    ensures
        s == (if side == ChangeSide::Sell {
            Side::SELL
        } else {
            Side::BUY
        }),
{
    match side {
        ChangeSide::Buy => Side::BUY,
        ChangeSide::Sell => Side::SELL,
        ChangeSide::Other => Side::BUY,
    }
}

/// "0x" followed by the lowercase hexadecimal digits of `bytes`, as alloy
/// renders an address with `{:#x}`.
pub open spec fn address_text(bytes: Seq<u8>) -> Seq<char> {
    "0x"@ + hex_text(bytes)
}

/// "0x" followed by the lowercase hexadecimal digits of `bytes`.
pub fn address_string(bytes: &Vec<u8>) -> (r: String)
    ensures
        r@ == address_text(bytes@),
{
    let h: String = hex_string(bytes);
    joined("0x", h.as_str())
}

/// The funder address taken from its environment value: absent when the
/// value is missing or blank, else trimmed and lowercased.
pub open spec fn env_funder(funder: Option<Seq<char>>) -> Option<Seq<char>> {
    match funder {
        Some(f) => if trimmed(f).len() > 0 {
            Some(lower(trimmed(f)))
        } else {
            None
        },
        None => None,
    }
}

/// The credentials that the environment values give, or the error
/// message for the first value that is missing or invalid.
pub open spec fn env_credentials(
    private_key: Option<Seq<char>>,
    api_key: Option<Seq<char>>,
    api_secret: Option<Seq<char>>,
    passphrase: Option<Seq<char>>,
    funder: Option<Seq<char>>,
) -> Result<CredentialsView, Seq<char>> {
    if private_key is None {
        Err("POLY_PRIVATE_KEY não encontrada"@)
    } else if api_key is None {
        Err("POLY_API_KEY não encontrada"@)
    } else if api_secret is None {
        Err("POLY_API_SECRET não encontrada"@)
    } else if passphrase is None {
        Err("POLY_PASSPHRASE não encontrada"@)
    } else {
        let key = trimmed(private_key->0);
        let f = env_funder(funder);
        match signer_address_of(key) {
            Err(e) => Err("Erro na Private Key: "@ + e),
            Ok(a) => Ok(
                CredentialsView {
                    address: match f {
                        Some(x) => x,
                        None => address_text(a),
                    },
                    api_key: trimmed(api_key->0),
                    api_secret: trimmed(api_secret->0),
                    passphrase: trimmed(passphrase->0),
                    private_key: key,
                    funder_address: f,
                },
            ),
        }
    }
}

/// Character view of a client result.
pub open spec fn client_result_view(r: Result<ClobClient, String>) -> Result<CredentialsView, Seq<char>> {
    match r {
        Ok(c) => Ok(c.creds@),
        Err(e) => Err(e@),
    }
}

/// Everything the exchange's authentication needs besides the signer.
pub struct AuthParams {
    pub api_key: Vec<u8>,
    pub api_secret: String,
    pub passphrase: String,
    pub signature: SignatureKind,
    pub funder: Option<Vec<u8>>,
}

/// The authentication parameters as plain values.
pub struct AuthParamsView {
    pub api_key: Seq<u8>,
    pub api_secret: Seq<char>,
    pub passphrase: Seq<char>,
    pub signature: SignatureKind,
    pub funder: Option<Seq<u8>>,
}

impl View for AuthParams {
    type V = AuthParamsView;

    open spec fn view(&self) -> AuthParamsView {
        AuthParamsView {
            api_key: self.api_key@,
            api_secret: self.api_secret@,
            passphrase: self.passphrase@,
            signature: self.signature,
            funder: match self.funder {
                Some(f) => Some(f@),
                None => None,
            },
        }
    }
}

/// The funder that authentication passes on: the parsed funder address,
/// when orders are not signed by the key's own account and a non-empty
/// funder address parses.
pub open spec fn auth_funder(creds: CredentialsView, sig: SignatureKind) -> Option<Seq<u8>> {
    if sig != SignatureKind::Eoa && creds.funder_address is Some
        && creds.funder_address->0.len() > 0 {
        address_of(creds.funder_address->0)
    } else {
        None
    }
}

/// The authentication parameters for `creds`, or the error message of the
/// first check that fails: the private key, then the API key as a UUID.
pub open spec fn auth_params_of(creds: CredentialsView, sig: SignatureKind) -> Result<AuthParamsView, Seq<char>> {
    match signer_address_of(creds.private_key) {
        Err(e) => Err("Erro no Signer: "@ + e),
        Ok(_) => match uuid_of(creds.api_key) {
            Err(e) => Err("API Key inválida (UUID): "@ + e),
            Ok(u) => Ok(
                AuthParamsView {
                    api_key: u,
                    api_secret: creds.api_secret,
                    passphrase: creds.passphrase,
                    signature: sig,
                    funder: auth_funder(creds, sig),
                },
            ),
        },
    }
}

/// Law: loading from environment values reports the first missing variable
/// (private key, API key, secret, passphrase, in that order), then a private
/// key that does not parse; otherwise each credential is its trimmed value,
/// the funder is the trimmed, lowercased funder value when that is not
/// blank, and the address is that funder or else the signer's address.
pub proof fn law_env_fields(
    pk: Option<Seq<char>>,
    ak: Option<Seq<char>>,
    sec: Option<Seq<char>>,
    pass: Option<Seq<char>>,
    funder: Option<Seq<char>>,
)
    ensures
        pk is None ==> env_credentials(pk, ak, sec, pass, funder) == Err::<CredentialsView, Seq<char>>(
            "POLY_PRIVATE_KEY não encontrada"@,
        ),
        pk is Some && ak is None ==> env_credentials(pk, ak, sec, pass, funder) == Err::<
            CredentialsView,
            Seq<char>,
        >("POLY_API_KEY não encontrada"@),
        pk is Some && ak is Some && sec is None ==> env_credentials(pk, ak, sec, pass, funder)
            == Err::<CredentialsView, Seq<char>>("POLY_API_SECRET não encontrada"@),
        pk is Some && ak is Some && sec is Some && pass is None ==> env_credentials(
            pk,
            ak,
            sec,
            pass,
            funder,
        ) == Err::<CredentialsView, Seq<char>>("POLY_PASSPHRASE não encontrada"@),
        pk is Some && ak is Some && sec is Some && pass is Some && signer_address_of(
            trimmed(pk->0),
        ) is Err ==> env_credentials(pk, ak, sec, pass, funder) == Err::<CredentialsView, Seq<char>>(
            "Erro na Private Key: "@ + signer_address_of(trimmed(pk->0))->Err_0,
        ),
        pk is Some && ak is Some && sec is Some && pass is Some && signer_address_of(
            trimmed(pk->0),
        ) is Ok ==> ({
            let c = env_credentials(pk, ak, sec, pass, funder)->Ok_0;
            let given = funder is Some && trimmed(funder->0).len() > 0;
            &&& env_credentials(pk, ak, sec, pass, funder) is Ok
            &&& c.private_key == trimmed(pk->0)
            &&& c.api_key == trimmed(ak->0)
            &&& c.api_secret == trimmed(sec->0)
            &&& c.passphrase == trimmed(pass->0)
            &&& given ==> c.funder_address == Some(lower(trimmed(funder->0))) && c.address == lower(
                trimmed(funder->0),
            )
            &&& !given ==> c.funder_address is None && c.address == address_text(
                signer_address_of(trimmed(pk->0))->Ok_0,
            )
        }),
{
}

/// Law: authentication parameters exist exactly when the private key parses
/// and the API key is a UUID (the key is checked first); they carry the UUID's
/// bytes, the secret and the passphrase each in its own field, the given
/// signature kind, and, unless that kind is the key's own account, the
/// parsed non-empty funder address.
pub proof fn law_auth_fields(creds: CredentialsView, sig: SignatureKind)
    ensures
        signer_address_of(creds.private_key) is Err ==> auth_params_of(creds, sig) == Err::<
            AuthParamsView,
            Seq<char>,
        >("Erro no Signer: "@ + signer_address_of(creds.private_key)->Err_0),
        signer_address_of(creds.private_key) is Ok && uuid_of(creds.api_key) is Err
            ==> auth_params_of(creds, sig) == Err::<AuthParamsView, Seq<char>>(
            "API Key inválida (UUID): "@ + uuid_of(creds.api_key)->Err_0,
        ),
        signer_address_of(creds.private_key) is Ok && uuid_of(creds.api_key) is Ok ==> ({
            let p = auth_params_of(creds, sig)->Ok_0;
            &&& auth_params_of(creds, sig) is Ok
            &&& p.api_key == uuid_of(creds.api_key)->Ok_0
            &&& p.api_secret == creds.api_secret
            &&& p.passphrase == creds.passphrase
            &&& p.signature == sig
            &&& (sig != SignatureKind::Eoa && creds.funder_address is Some
                && creds.funder_address->0.len() > 0) ==> p.funder == address_of(
                creds.funder_address->0,
            )
            &&& !(sig != SignatureKind::Eoa && creds.funder_address is Some
                && creds.funder_address->0.len() > 0) ==> p.funder is None
        }),
{
}

/// Character view of an authentication-parameters result.
pub open spec fn auth_result_view(r: Result<AuthParams, String>) -> Result<AuthParamsView, Seq<char>> {
    match r {
        Ok(p) => Ok(p@),
        Err(e) => Err(e@),
    }
}

/// Client of the Polymarket central limit order book.
#[derive(Clone)]
pub struct ClobClient {
    pub creds: Credentials,
}

impl ClobClient {
    /// A client with the given credentials.
    pub fn new(creds: Credentials) -> (c: Self)
        ensures
            c.creds == creds,
    {
        Self { creds }
    }

    /// Orders of this client are signed through a proxy wallet.
    pub fn get_signature_type(&self) -> (k: SignatureKind)
        ensures
            k == SignatureKind::Proxy,
    {
        SignatureKind::Proxy
    }

    /// Builds the client from the values of the environment variables
    /// `POLY_PRIVATE_KEY`, `POLY_API_KEY`, `POLY_API_SECRET`,
    /// `POLY_PASSPHRASE` and `POLY_FUNDER_ADDRESS` (`None` where a variable is
    /// unset).
    pub fn from_env_values(
        private_key: Option<String>,
        api_key: Option<String>,
        api_secret: Option<String>,
        passphrase: Option<String>,
        funder_address: Option<String>,
    ) -> (r: Result<Self, String>)
        ensures
            client_result_view(r) == env_credentials(
                opt_text(private_key),
                opt_text(api_key),
                opt_text(api_secret),
                opt_text(passphrase),
                opt_text(funder_address),
            ),
    {
        let private_key: String = match private_key {
            Some(v) => trim(v.as_str()),
            None => {
                return Err(owned("POLY_PRIVATE_KEY não encontrada"));
            },
        };
        let api_key: String = match api_key {
            Some(v) => trim(v.as_str()),
            None => {
                return Err(owned("POLY_API_KEY não encontrada"));
            },
        };
        let api_secret: String = match api_secret {
            Some(v) => trim(v.as_str()),
            None => {
                return Err(owned("POLY_API_SECRET não encontrada"));
            },
        };
        let passphrase: String = match passphrase {
            Some(v) => trim(v.as_str()),
            None => {
                return Err(owned("POLY_PASSPHRASE não encontrada"));
            },
        };
        let funder: Option<String> = match funder_address {
            Some(v) => {
                let t: String = trim(v.as_str());
                if t.as_str().is_empty() {
                    None
                } else {
                    Some(lowercase(t.as_str()))
                }
            },
            None => None,
        };
        let signer: Vec<u8> = match signer_address(private_key.as_str()) {
            Ok(a) => a,
            Err(e) => {
                return Err(joined("Erro na Private Key: ", e.as_str()));
            },
        };
        let address: String = match &funder {
            Some(f) => f.clone(),
            None => address_string(&signer),
        };
        Ok(
            Self::new(
                Credentials {
                    address,
                    api_key,
                    api_secret,
                    passphrase,
                    private_key,
                    funder_address: funder,
                },
            ),
        )
    }

    /// The parameters with which the client authenticates at the exchange:
    /// the API key as UUID bytes, secret, passphrase, signature kind and
    /// funder.
    pub fn auth_params(&self) -> (r: Result<AuthParams, String>)
        ensures
            auth_result_view(r) == auth_params_of(self.creds@, SignatureKind::Proxy),
    {
        match signer_address(self.creds.private_key.as_str()) {
            Ok(_) => {},
            Err(e) => {
                return Err(joined("Erro no Signer: ", e.as_str()));
            },
        }
        let api_key: Vec<u8> = match parse_uuid(self.creds.api_key.as_str()) {
            Ok(u) => u,
            Err(e) => {
                return Err(joined("API Key inválida (UUID): ", e.as_str()));
            },
        };
        let sig: SignatureKind = self.get_signature_type();
        let mut funder: Option<Vec<u8>> = None;
        if sig != SignatureKind::Eoa {
            match &self.creds.funder_address {
                Some(f) => {
                    if !f.as_str().is_empty() {
                        funder = parse_address(f.as_str());
                    }
                },
                None => {},
            }
        }
        Ok(
            AuthParams {
                api_key,
                api_secret: self.creds.api_secret.clone(),
                passphrase: self.creds.passphrase.clone(),
                signature: sig,
                funder,
            },
        )
    }

    /// The data-API query for the total value of this account's positions.
    pub fn value_url(&self) -> (r: String)
        ensures
            r@ == "https://data-api.polymarket.com/value?user="@ + lower(
                self.creds.address@,
            ),
    {
        let user: String = lowercase(self.creds.address.as_str());
        joined("https://data-api.polymarket.com/value?user=", user.as_str())
    }

    /// The token id of an order, or the parser's error text.
    pub fn order_token_id(token_id: &str) -> (r: Result<TokenId, String>)
        ensures
            token_result_view(r) == token_id_result(token_id@, ""@),
            u256_of(token_id@) is Ok ==> r is Ok && r->Ok_0.w0 == u256_of(token_id@)->Ok_0.0 && r->Ok_0.w1
                == u256_of(token_id@)->Ok_0.1 && r->Ok_0.w2 == u256_of(token_id@)->Ok_0.2 && r->Ok_0.w3
                == u256_of(token_id@)->Ok_0.3,
            u256_of(token_id@) is Err ==> r is Err && r->Err_0@ == ""@ + u256_of(token_id@)->Err_0,
    {
        token_id_with_prefix(token_id, "")
    }

    /// The token id whose balance is asked for, or an error naming it
    /// invalid.
    pub fn balance_token_id(token_id: &str) -> (r: Result<TokenId, String>)
        ensures
            token_result_view(r) == token_id_result(token_id@, "Token ID inválido: "@),
            u256_of(token_id@) is Ok ==> r is Ok && r->Ok_0.w0 == u256_of(token_id@)->Ok_0.0 && r->Ok_0.w1
                == u256_of(token_id@)->Ok_0.1 && r->Ok_0.w2 == u256_of(token_id@)->Ok_0.2 && r->Ok_0.w3
                == u256_of(token_id@)->Ok_0.3,
            u256_of(token_id@) is Err ==> r is Err && r->Err_0@ == "Token ID inválido: "@ + u256_of(token_id@)->Err_0,
    {
        token_id_with_prefix(token_id, "Token ID inválido: ")
    }
}

} // verus!
