use polywatcher::clob::{ClobClient, Credentials, SignatureKind};
use polywatcher::login::{auth_failure_message, env_file_content, LoginFields};

const KEY: &str = "0xac0974bec39a17e36ba4a6b4d238ff944bacb478cbed5efcae784d7bf4f2ff80";
const KEY_ADDRESS: &str = "0xf39fd6e51aad88f6f4ce6ab8827279cfffb92266";
const API_KEY: &str = "550e8400-e29b-41d4-a716-446655440000";
const PARTIAL: &str = "Para usar chaves manuais, você deve preencher os 3 campos: API Key, Secret e Passphrase.";

fn fields(funder: &str, key: &str, secret: &str, pass: &str) -> LoginFields {
    LoginFields {
        private_key: KEY.to_string(),
        funder_address: funder.to_string(),
        api_key: key.to_string(),
        api_secret: secret.to_string(),
        passphrase: pass.to_string(),
    }
}

#[test]
fn signer_of_login_key() {
    let f = fields("", "", "", "");
    assert_eq!(polywatcher::clob::address_string(&f.signer().unwrap()), KEY_ADDRESS);
    let mut bad = fields("", "", "", "");
    bad.private_key = "xyz".to_string();
    assert!(bad.signer().err().unwrap().starts_with("Private key inválida: "));
}

#[test]
fn partial_manual_key_is_refused() {
    assert_eq!(fields("", "k", "", "").plan_auth().err().unwrap(), PARTIAL);
    assert_eq!(fields("", "", "s", "p").plan_auth().err().unwrap(), PARTIAL);
}

#[test]
fn manual_key_must_be_uuid() {
    let e = fields("", "not-uuid", "s", "p").plan_auth().err().unwrap();
    assert!(e.starts_with("API Key inválida (deve ser UUID): "));
}

#[test]
fn plan_without_funder_uses_own_account() {
    let p = fields("", "", "", "").plan_auth().unwrap();
    assert!(p.manual.is_none());
    assert_eq!(p.signature, SignatureKind::Eoa);
    assert!(p.funder.is_none());
}

#[test]
fn plan_with_manual_key_and_funder() {
    let p = fields("0x00000000000000000000000000000000000000ff", API_KEY, "s", "p").plan_auth().unwrap();
    let m = p.manual.unwrap();
    assert_eq!(m.api_key[0], 0x55);
    assert_eq!(m.api_key.len(), 16);
    assert_eq!(m.api_secret, "s");
    assert_eq!(m.passphrase, "p");
    assert_eq!(p.signature, SignatureKind::GnosisSafe);
    assert_eq!(p.funder.unwrap()[19], 0xff);
}

#[test]
fn invalid_funder_is_refused() {
    assert_eq!(fields("0xzz", "", "", "").plan_auth().err().unwrap(), "Endereço do funder inválido");
}

#[test]
fn failure_messages() {
    assert_eq!(
        auth_failure_message("HTTP 503 Service Unavailable"),
        "Erro 503: O serviço de derivação está instável. Insira API Key, Secret e Passphrase manualmente para conectar.\nHTTP 503 Service Unavailable"
    );
    assert_eq!(auth_failure_message("HTTP 401"), "Erro ao autenticar: HTTP 401");
    assert_eq!(auth_failure_message("50 3"), "Erro ao autenticar: 50 3");
}

#[test]
fn credentials_after_login() {
    let f = fields("0xABCD", "", "", "");
    let signer = f.signer().unwrap();
    let c = f.credentials_after_auth(&signer, "k".to_string(), "s".to_string(), "p".to_string());
    assert_eq!(c.address, "0xabcd");
    assert_eq!(c.funder_address.as_deref(), Some("0xabcd"));
    assert_eq!(c.private_key, KEY);
    assert_eq!(c.api_key, "k");
    let f = fields("", "", "", "");
    let c = f.credentials_after_auth(&signer, "k".to_string(), "s".to_string(), "p".to_string());
    assert_eq!(c.address, KEY_ADDRESS);
    assert_eq!(c.funder_address, None);
}

#[test]
fn env_file_lists_every_value() {
    let c = Credentials {
        address: "a".to_string(),
        api_key: "k".to_string(),
        api_secret: "s".to_string(),
        passphrase: "p".to_string(),
        private_key: "pk".to_string(),
        funder_address: None,
    };
    assert_eq!(
        env_file_content(&c),
        "POLY_PRIVATE_KEY=pk\nPOLY_FUNDER_ADDRESS=\nPOLY_API_KEY=k\nPOLY_API_SECRET=s\nPOLY_PASSPHRASE=p\n"
    );
    let c = Credentials { funder_address: Some("0xf".to_string()), ..c };
    assert_eq!(
        env_file_content(&c),
        "POLY_PRIVATE_KEY=pk\nPOLY_FUNDER_ADDRESS=0xf\nPOLY_API_KEY=k\nPOLY_API_SECRET=s\nPOLY_PASSPHRASE=p\n"
    );
}

#[test]
fn logout_prefills_login() {
    let c = Credentials {
        address: "a".to_string(),
        api_key: "k".to_string(),
        api_secret: "s".to_string(),
        passphrase: "p".to_string(),
        private_key: "pk".to_string(),
        funder_address: None,
    };
    let f = LoginFields::from_credentials(&c);
    assert_eq!(f.private_key, "pk");
    assert_eq!(f.funder_address, "");
    assert_eq!(f.api_key, "k");
    assert_eq!(f.api_secret, "s");
    assert_eq!(f.passphrase, "p");
}

#[test]
fn saved_login_loads_back() {
    for funder in ["", "0xAbCd00000000000000000000000000000000Ef01"] {
        let f = fields(funder, "", "", "");
        let signer = f.signer().unwrap();
        let c = f.credentials_after_auth(&signer, API_KEY.to_string(), "sec".to_string(), "pw".to_string());
        let back = ClobClient::from_env_values(
            Some(c.private_key.clone()),
            Some(c.api_key.clone()),
            Some(c.api_secret.clone()),
            Some(c.passphrase.clone()),
            Some(c.funder_address.clone().unwrap_or_default()),
        )
        .unwrap();
        assert_eq!(back.creds.address, c.address);
        assert_eq!(back.creds.api_key, c.api_key);
        assert_eq!(back.creds.api_secret, c.api_secret);
        assert_eq!(back.creds.passphrase, c.passphrase);
        assert_eq!(back.creds.private_key, c.private_key);
        assert_eq!(back.creds.funder_address, c.funder_address);
    }
}
