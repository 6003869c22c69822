//! The login form: which authentication it asks for, how a failed
//! authentication is reported, which credentials a successful one yields
//! and what is saved of them.

use crate::clob::{address_string, address_text, env_credentials, opt_text, Credentials, CredentialsView, SignatureKind};
use crate::foreign::{address_digits, address_of, is_hex_digit, parse_address, parse_uuid, signer_address, signer_address_of, uuid_of};
use crate::text::{all_ascii, is_ascii_char, contains_text, joined, lemma_ascii_lower_props, lemma_trimmed_fixed, lower, lowercase, occurs_in, owned, trimmed};
use vstd::prelude::*;

verus! {

/// The text fields of the login form.
pub struct LoginFields {
    pub private_key: String,
    pub funder_address: String,
    pub api_key: String,
    pub api_secret: String,
    pub passphrase: String,
}

/// The login fields as character sequences.
pub struct LoginView {
    pub private_key: Seq<char>,
    pub funder_address: Seq<char>,
    pub api_key: Seq<char>,
    pub api_secret: Seq<char>,
    pub passphrase: Seq<char>,
}

impl View for LoginFields {
    type V = LoginView;

    open spec fn view(&self) -> LoginView {
        LoginView {
            private_key: self.private_key@,
            funder_address: self.funder_address@,
            api_key: self.api_key@,
            api_secret: self.api_secret@,
            passphrase: self.passphrase@,
        }
    }
}

/// API credentials typed in by hand: the key as UUID bytes, secret and
/// passphrase.
pub struct ManualKey {
    pub api_key: Vec<u8>,
    pub api_secret: String,
    pub passphrase: String,
}

/// How the login authenticates: with the API credentials typed in (or by
/// deriving them), with which signature kind and funder.
pub struct AuthPlan {
    pub manual: Option<ManualKey>,
    pub signature: SignatureKind,
    pub funder: Option<Vec<u8>>,
}

/// The plan as plain values.
pub struct AuthPlanView {
    pub manual: Option<(Seq<u8>, Seq<char>, Seq<char>)>,
    pub signature: SignatureKind,
    pub funder: Option<Seq<u8>>,
}

impl View for AuthPlan {
    type V = AuthPlanView;

    open spec fn view(&self) -> AuthPlanView {
        AuthPlanView {
            manual: match self.manual {
                Some(m) => Some((m.api_key@, m.api_secret@, m.passphrase@)),
                None => None,
            },
            signature: self.signature,
            funder: match self.funder {
                Some(f) => Some(f@),
                None => None,
            },
        }
    }
}

/// Whether all three API fields are filled in.
pub open spec fn has_manual_key(f: LoginView) -> bool {
    f.api_key.len() > 0 && f.api_secret.len() > 0 && f.passphrase.len() > 0
}

/// Whether some, but not all, API fields are filled in.
pub open spec fn partial_manual_key(f: LoginView) -> bool {
    !has_manual_key(f) && (f.api_key.len() > 0 || f.api_secret.len() > 0 || f.passphrase.len()
        > 0)
}

/// The authentication plan of the form, or the error message of the first
/// check that fails: the API fields all or none, the API key a UUID, the
/// funder address (when given) an address.
pub open spec fn plan_of(f: LoginView) -> Result<AuthPlanView, Seq<char>> {
    if partial_manual_key(f) {
        Err(
            "Para usar chaves manuais, você deve preencher os 3 campos: API Key, Secret e Passphrase."@,
        )
    } else if has_manual_key(f) && uuid_of(f.api_key) is Err {
        Err("API Key inválida (deve ser UUID): "@ + uuid_of(f.api_key)->Err_0)
    } else if f.funder_address.len() > 0 && address_of(f.funder_address) is None {
        Err("Endereço do funder inválido"@)
    } else {
        Ok(
            AuthPlanView {
                manual: if has_manual_key(f) {
                    Some((uuid_of(f.api_key)->Ok_0, f.api_secret, f.passphrase))
                } else {
                    None
                },
                signature: if f.funder_address.len() > 0 {
                    SignatureKind::GnosisSafe
                } else {
                    SignatureKind::Eoa
                },
                funder: if f.funder_address.len() > 0 {
                    address_of(f.funder_address)
                } else {
                    None
                },
            },
        )
    }
}

/// Character view of a plan result.
pub open spec fn plan_result_view(r: Result<AuthPlan, String>) -> Result<AuthPlanView, Seq<char>> {
    match r {
        Ok(p) => Ok(p@),
        Err(e) => Err(e@),
    }
}

/// The message shown when authentication fails with `e`: a hint to type the
/// API credentials in when the derivation service answered 503.
pub open spec fn failure_text(e: Seq<char>) -> Seq<char> {
    if occurs_in("503"@, e) {
        "Erro 503: O serviço de derivação está instável. Insira API Key, Secret e Passphrase manualmente para conectar.\n"@
            + e
    } else {
        "Erro ao autenticar: "@ + e
    }
}

/// The message shown when authentication fails with `e`.
pub fn auth_failure_message(e: &str) -> (r: String)
    ensures
        r@ == failure_text(e@),
{
    if contains_text(e, "503") {
        joined(
            "Erro 503: O serviço de derivação está instável. Insira API Key, Secret e Passphrase manualmente para conectar.\n",
            e,
        )
    } else {
        joined("Erro ao autenticar: ", e)
    }
}

/// The credentials a successful login yields, given the signer's address
/// and the API credentials the exchange confirmed.
pub open spec fn login_credentials(
    f: LoginView,
    signer: Seq<u8>,
    api_key: Seq<char>,
    api_secret: Seq<char>,
    passphrase: Seq<char>,
) -> CredentialsView {
    CredentialsView {
        address: if f.funder_address.len() > 0 {
            lower(f.funder_address)
        } else {
            address_text(signer)
        },
        api_key: api_key,
        api_secret: api_secret,
        passphrase: passphrase,
        private_key: f.private_key,
        funder_address: if f.funder_address.len() > 0 {
            Some(lower(f.funder_address))
        } else {
            None
        },
    }
}

/// The content of the `.env` file that saves the credentials.
pub open spec fn env_text(c: CredentialsView) -> Seq<char> {
    "POLY_PRIVATE_KEY="@ + c.private_key + "\nPOLY_FUNDER_ADDRESS="@ + match c.funder_address {
        Some(x) => x,
        None => Seq::empty(),
    } + "\nPOLY_API_KEY="@ + c.api_key + "\nPOLY_API_SECRET="@ + c.api_secret
        + "\nPOLY_PASSPHRASE="@ + c.passphrase + "\n"@
}

/// The content of the `.env` file that saves `c`.
pub fn env_file_content(c: &Credentials) -> (r: String)
    ensures
        r@ == env_text(c@),
{
    let mut r: String = joined("POLY_PRIVATE_KEY=", c.private_key.as_str());
    r.append("\nPOLY_FUNDER_ADDRESS=");
    match &c.funder_address {
        Some(x) => {
            r.append(x.as_str());
        },
        None => {
            proof {
                reveal_strlit("");
            }
        },
    }
    r.append("\nPOLY_API_KEY=");
    r.append(c.api_key.as_str());
    r.append("\nPOLY_API_SECRET=");
    r.append(c.api_secret.as_str());
    r.append("\nPOLY_PASSPHRASE=");
    r.append(c.passphrase.as_str());
    r.append("\n");
    assert(r@ =~= env_text(c@));
    r
}

/// Law: the saved file has one line per variable, in the order private
/// key, funder (empty when there is none), API key, secret, passphrase.
pub proof fn law_env_lines(c: CredentialsView)
    ensures
        env_text(c) == "POLY_PRIVATE_KEY="@ + c.private_key + "\nPOLY_FUNDER_ADDRESS="@ + (
        if c.funder_address is Some {
            c.funder_address->0
        } else {
            Seq::empty()
        }) + "\nPOLY_API_KEY="@ + c.api_key + "\nPOLY_API_SECRET="@ + c.api_secret
            + "\nPOLY_PASSPHRASE="@ + c.passphrase + "\n"@,
{
}

/// Law: a failure whose text contains "503" is reported with the hint to
/// type the API credentials in, any other with "Erro ao autenticar: ";
/// both end with the failure's text.
pub proof fn law_failure_report(e: Seq<char>)
    ensures
        occurs_in("503"@, e) ==> failure_text(e)
            == "Erro 503: O serviço de derivação está instável. Insira API Key, Secret e Passphrase manualmente para conectar.\n"@
            + e,
        !occurs_in("503"@, e) ==> failure_text(e) == "Erro ao autenticar: "@ + e,
{
}

/// The value the saved `.env` file gives to `POLY_FUNDER_ADDRESS`.
pub open spec fn saved_funder(c: CredentialsView) -> Seq<char> {
    match c.funder_address {
        Some(x) => x,
        None => Seq::empty(),
    }
}

/// A text that parses as an address is ASCII and has no surrounding
/// whitespace.
pub proof fn lemma_address_text_plain(t: Seq<char>)
    requires
        address_of(t) is Some,
    ensures
        all_ascii(t),
        trimmed(t) == t,
{
    let d = address_digits(t);
    let off: int = if t.len() >= 2 && t[0] == '0' && (t[1] == 'x' || t[1] == 'X') {
        2
    } else {
        0
    };
    assert forall|i: int| off <= i < t.len() implies t[i] == d[i - off] by {}
    assert forall|i: int| 0 <= i < t.len() implies is_ascii_char(#[trigger] t[i]) by {
        if i >= off {
            assert(is_hex_digit(d[i - off]));
        }
    }
    assert(is_hex_digit(d[39]));
    assert(t.last() == d[39]);
    if off == 0 {
        assert(is_hex_digit(d[0]));
    }
    lemma_trimmed_fixed(t);
}

/// Law: the credentials that a successful login yields and saves load back
/// unchanged from the saved environment values, when the private key and
/// the API credentials carry no surrounding whitespace.
pub proof fn law_saved_login_loads_back(
    f: LoginView,
    signer: Seq<u8>,
    api_key: Seq<char>,
    api_secret: Seq<char>,
    passphrase: Seq<char>,
)
    requires
        signer_address_of(f.private_key) == Ok::<Seq<u8>, Seq<char>>(signer),
        trimmed(f.private_key) == f.private_key,
        trimmed(api_key) == api_key,
        trimmed(api_secret) == api_secret,
        trimmed(passphrase) == passphrase,
        plan_of(f) is Ok,
    ensures
        ({
            let c = login_credentials(f, signer, api_key, api_secret, passphrase);
            env_credentials(
                Some(c.private_key),
                Some(c.api_key),
                Some(c.api_secret),
                Some(c.passphrase),
                Some(saved_funder(c)),
            ) == Ok::<CredentialsView, Seq<char>>(c)
        }),
{
    let c = login_credentials(f, signer, api_key, api_secret, passphrase);
    if f.funder_address.len() > 0 {
        lemma_address_text_plain(f.funder_address);
    } else {
        assert(f.funder_address =~= Seq::<char>::empty());
        lemma_trimmed_fixed(f.funder_address);
    }
    lemma_ascii_lower_props(f.funder_address);
    let e = env_credentials(
        Some(c.private_key),
        Some(c.api_key),
        Some(c.api_secret),
        Some(c.passphrase),
        Some(saved_funder(c)),
    );
    if f.funder_address.len() == 0 {
        lemma_trimmed_fixed(Seq::<char>::empty());
        assert(saved_funder(c) =~= Seq::<char>::empty());
    }
    assert(e->Ok_0 == c);
}

/// Law: a login plan exists exactly when the API fields are all filled in
/// or all empty, a filled-in API key is a UUID and a given funder is an
/// address; a given funder makes the plan sign through a Gnosis Safe with
/// that funder, whatever the API fields hold, and no funder makes it sign
/// with the key's own account; typed-in API credentials are used exactly
/// when all three are filled in.
pub proof fn law_plan_follows_fields(f: LoginView)
    ensures
        plan_of(f) is Ok <==> (!((f.api_key.len() > 0 || f.api_secret.len() > 0 || f.passphrase.len() > 0)
            && !(f.api_key.len() > 0 && f.api_secret.len() > 0 && f.passphrase.len() > 0))
            && ((f.api_key.len() > 0 && f.api_secret.len() > 0 && f.passphrase.len() > 0)
            ==> uuid_of(f.api_key) is Ok) && (f.funder_address.len() > 0
            ==> address_of(f.funder_address) is Some)),
        plan_of(f) is Ok && f.funder_address.len() > 0 ==> plan_of(f)->Ok_0.signature == SignatureKind::GnosisSafe
            && plan_of(f)->Ok_0.funder == address_of(f.funder_address),
        plan_of(f) is Ok && f.funder_address.len() == 0 ==> plan_of(f)->Ok_0.signature == SignatureKind::Eoa
            && plan_of(f)->Ok_0.funder is None,
        plan_of(f) is Ok ==> (plan_of(f)->Ok_0.manual is Some <==> (f.api_key.len() > 0 && f.api_secret.len() > 0
            && f.passphrase.len() > 0)),
        plan_of(f) is Ok && plan_of(f)->Ok_0.manual is Some ==> plan_of(f)->Ok_0.manual->0 == (
            uuid_of(f.api_key)->Ok_0,
            f.api_secret,
            f.passphrase,
        ),
{
}

/// Law: the credentials a login yields carry the API key, secret and
/// passphrase the exchange confirmed and the form's private key, each in its
/// own field; the address and funder are the lowercased funder when one is
/// given, else the signer's address and no funder.
pub proof fn law_login_fields_in_place(
    f: LoginView,
    signer: Seq<u8>,
    api_key: Seq<char>,
    api_secret: Seq<char>,
    passphrase: Seq<char>,
)
    ensures
        login_credentials(f, signer, api_key, api_secret, passphrase).api_key == api_key,
        login_credentials(f, signer, api_key, api_secret, passphrase).api_secret == api_secret,
        login_credentials(f, signer, api_key, api_secret, passphrase).passphrase == passphrase,
        login_credentials(f, signer, api_key, api_secret, passphrase).private_key == f.private_key,
        f.funder_address.len() > 0 ==> login_credentials(f, signer, api_key, api_secret, passphrase).address == lower(f.funder_address)
            && login_credentials(f, signer, api_key, api_secret, passphrase).funder_address == Some(lower(f.funder_address)),
        f.funder_address.len() == 0 ==> login_credentials(f, signer, api_key, api_secret, passphrase).address == address_text(signer)
            && login_credentials(f, signer, api_key, api_secret, passphrase).funder_address is None,
{
}

impl LoginFields {
    /// The form filled in with saved credentials (an absent funder leaves
    /// its field empty).
    pub fn from_credentials(c: &Credentials) -> (f: Self)
        ensures
            f.private_key@ == c.private_key@,
            f.funder_address@ == match c.funder_address {
                Some(x) => x@,
                None => Seq::<char>::empty(),
            },
            f.api_key@ == c.api_key@,
            f.api_secret@ == c.api_secret@,
            f.passphrase@ == c.passphrase@,
    {
        let funder: String = match &c.funder_address {
            Some(x) => x.clone(),
            None => {
                proof {
                    reveal_strlit("");
                }
                owned("")
            },
        };
        LoginFields {
            private_key: c.private_key.clone(),
            funder_address: funder,
            api_key: c.api_key.clone(),
            api_secret: c.api_secret.clone(),
            passphrase: c.passphrase.clone(),
        }
    }

    /// The address of the signer of the form's private key, or an error
    /// naming the key invalid.
    pub fn signer(&self) -> (r: Result<Vec<u8>, String>)
        ensures
            r is Ok <==> signer_address_of(self.private_key@) is Ok,
            r is Ok ==> signer_address_of(self.private_key@) == Ok::<Seq<u8>, Seq<char>>(
                r->Ok_0@,
            ),
            r is Err ==> r->Err_0@ == "Private key inválida: "@ + signer_address_of(
                self.private_key@,
            )->Err_0,
    {
        match signer_address(self.private_key.as_str()) {
            Ok(a) => Ok(a),
            Err(e) => Err(joined("Private key inválida: ", e.as_str())),
        }
    }

    /// How to authenticate with what the form holds.
    pub fn plan_auth(&self) -> (r: Result<AuthPlan, String>)
        ensures
            plan_result_view(r) == plan_of(self@),
            r is Ok <==> (!((self@.api_key.len() > 0 || self@.api_secret.len() > 0 || self@.passphrase.len() > 0)
                && !(self@.api_key.len() > 0 && self@.api_secret.len() > 0 && self@.passphrase.len() > 0))
                && ((self@.api_key.len() > 0 && self@.api_secret.len() > 0 && self@.passphrase.len() > 0)
                ==> uuid_of(self@.api_key) is Ok) && (self@.funder_address.len() > 0
                ==> address_of(self@.funder_address) is Some)),
            r is Ok && self@.funder_address.len() > 0 ==> r->Ok_0@.signature == SignatureKind::GnosisSafe
                && r->Ok_0@.funder == address_of(self@.funder_address),
            r is Ok && self@.funder_address.len() == 0 ==> r->Ok_0@.signature == SignatureKind::Eoa
                && r->Ok_0@.funder is None,
            r is Ok ==> (r->Ok_0@.manual is Some <==> (self@.api_key.len() > 0 && self@.api_secret.len() > 0
                && self@.passphrase.len() > 0)),
            r is Ok && r->Ok_0@.manual is Some ==> r->Ok_0@.manual->0 == (
                uuid_of(self@.api_key)->Ok_0,
                self@.api_secret,
                self@.passphrase,
            ),
    {
        let has_key: bool = !self.api_key.as_str().is_empty() && !self.api_secret.as_str().is_empty()
            && !self.passphrase.as_str().is_empty();
        if !has_key && (!self.api_key.as_str().is_empty() || !self.api_secret.as_str().is_empty()
            || !self.passphrase.as_str().is_empty()) {
            return Err(
                owned(
                    "Para usar chaves manuais, você deve preencher os 3 campos: API Key, Secret e Passphrase.",
                ),
            );
        }
        let mut manual: Option<ManualKey> = None;
        if has_key {
            match parse_uuid(self.api_key.as_str()) {
                Ok(u) => {
                    manual = Some(
                        ManualKey {
                            api_key: u,
                            api_secret: self.api_secret.clone(),
                            passphrase: self.passphrase.clone(),
                        },
                    );
                },
                Err(e) => {
                    return Err(joined("API Key inválida (deve ser UUID): ", e.as_str()));
                },
            }
        }
        if !self.funder_address.as_str().is_empty() {
            match parse_address(self.funder_address.as_str()) {
                Some(a) => Ok(AuthPlan { manual, signature: SignatureKind::GnosisSafe, funder: Some(a) }),
                None => Err(owned("Endereço do funder inválido")),
            }
        } else {
            Ok(AuthPlan { manual, signature: SignatureKind::Eoa, funder: None })
        }
    }

    /// The credentials a successful login yields: the signer's address is
    /// used unless a funder address was given, and the API credentials are
    /// those the exchange confirmed.
    pub fn credentials_after_auth(
        &self,
        signer: &Vec<u8>,
        api_key: String,
        api_secret: String,
        passphrase: String,
    ) -> (c: Credentials)
        ensures
            c@ == login_credentials(self@, signer@, api_key@, api_secret@, passphrase@),
            c@.api_key == api_key@,
            c@.api_secret == api_secret@,
            c@.passphrase == passphrase@,
            c@.private_key == self@.private_key,
            self@.funder_address.len() > 0 ==> c@.address == lower(self@.funder_address)
                && c@.funder_address == Some(lower(self@.funder_address)),
            self@.funder_address.len() == 0 ==> c@.address == address_text(signer@)
                && c@.funder_address is None,
    {
        let has_funder: bool = !self.funder_address.as_str().is_empty();
        let address: String = if has_funder {
            lowercase(self.funder_address.as_str())
        } else {
            address_string(signer)
        };
        let funder_address: Option<String> = if has_funder {
            Some(lowercase(self.funder_address.as_str()))
        } else {
            None
        };
        Credentials {
            address,
            api_key,
            api_secret,
            passphrase,
            private_key: self.private_key.clone(),
            funder_address,
        }
    }
}

} // verus!
