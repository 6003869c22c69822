use polywatcher::book::ChangeSide;
use polywatcher::clob::{order_side, ClobClient, Credentials, Side, SignatureKind, TokenId};

const KEY: &str = "0xac0974bec39a17e36ba4a6b4d238ff944bacb478cbed5efcae784d7bf4f2ff80";
const KEY_ADDRESS: &str = "0xf39fd6e51aad88f6f4ce6ab8827279cfffb92266";
const API_KEY: &str = "550e8400-e29b-41d4-a716-446655440000";

fn s(v: &str) -> Option<String> {
    Some(v.to_string())
}

fn creds(private_key: &str, api_key: &str, funder: Option<&str>) -> Credentials {
    Credentials {
        address: "0xABC".to_string(),
        api_key: api_key.to_string(),
        api_secret: "secret".to_string(),
        passphrase: "pass".to_string(),
        private_key: private_key.to_string(),
        funder_address: funder.map(|f| f.to_string()),
    }
}

#[test]
fn new_keeps_credentials() {
    let c = creds(KEY, API_KEY, None);
    let client = ClobClient::new(c.clone());
    assert_eq!(client.creds.address, c.address);
    assert_eq!(client.creds.private_key, c.private_key);
    assert_eq!(client.get_signature_type(), SignatureKind::Proxy);
}

#[test]
fn env_values_derive_address_from_key() {
    let client = ClobClient::from_env_values(s(KEY), s(" key "), s("\tsecret\n"), s(" pass"), None).unwrap();
    assert_eq!(client.creds.address, KEY_ADDRESS);
    assert_eq!(client.creds.api_key, "key");
    assert_eq!(client.creds.api_secret, "secret");
    assert_eq!(client.creds.passphrase, "pass");
    assert_eq!(client.creds.private_key, KEY);
    assert_eq!(client.creds.funder_address, None);
}

#[test]
fn env_values_trim_private_key() {
    let padded = format!("  {}\n", KEY);
    let client = ClobClient::from_env_values(Some(padded), s("k"), s("s"), s("p"), None).unwrap();
    assert_eq!(client.creds.private_key, KEY);
    assert_eq!(client.creds.address, KEY_ADDRESS);
}

#[test]
fn env_values_use_funder_lowercased() {
    let client = ClobClient::from_env_values(s(KEY), s("k"), s("s"), s("p"), s("  0xAbCdEF0000000000000000000000000000000001 ")).unwrap();
    assert_eq!(client.creds.address, "0xabcdef0000000000000000000000000000000001");
    assert_eq!(client.creds.funder_address.as_deref(), Some("0xabcdef0000000000000000000000000000000001"));
}

#[test]
fn env_values_ignore_blank_funder() {
    let client = ClobClient::from_env_values(s(KEY), s("k"), s("s"), s("p"), s("   ")).unwrap();
    assert_eq!(client.creds.funder_address, None);
    assert_eq!(client.creds.address, KEY_ADDRESS);
}

#[test]
fn env_values_report_first_missing_variable() {
    assert_eq!(ClobClient::from_env_values(None, None, None, None, None).err().unwrap(), "POLY_PRIVATE_KEY não encontrada");
    assert_eq!(ClobClient::from_env_values(s(KEY), None, None, None, None).err().unwrap(), "POLY_API_KEY não encontrada");
    assert_eq!(ClobClient::from_env_values(s(KEY), s("k"), None, None, None).err().unwrap(), "POLY_API_SECRET não encontrada");
    assert_eq!(ClobClient::from_env_values(s(KEY), s("k"), s("s"), None, None).err().unwrap(), "POLY_PASSPHRASE não encontrada");
}

#[test]
fn env_values_reject_bad_private_key() {
    let e = ClobClient::from_env_values(s("0x1234"), s("k"), s("s"), s("p"), None).err().unwrap();
    assert!(e.starts_with("Erro na Private Key: "));
    assert!(e.len() > "Erro na Private Key: ".len());
}

#[test]
fn auth_params_parse_key_and_funder() {
    let client = ClobClient::new(creds(KEY, API_KEY, Some("0x00000000000000000000000000000000000000ff")));
    let p = client.auth_params().unwrap();
    assert_eq!(p.api_key, vec![0x55, 0x0e, 0x84, 0x00, 0xe2, 0x9b, 0x41, 0xd4, 0xa7, 0x16, 0x44, 0x66, 0x55, 0x44, 0x00, 0x00]);
    assert_eq!(p.api_secret, "secret");
    assert_eq!(p.passphrase, "pass");
    assert_eq!(p.signature, SignatureKind::Proxy);
    let mut funder = vec![0u8; 20];
    funder[19] = 0xff;
    assert_eq!(p.funder, Some(funder));
}

#[test]
fn auth_params_drop_unparsable_or_empty_funder() {
    let client = ClobClient::new(creds(KEY, API_KEY, Some("not-an-address")));
    assert_eq!(client.auth_params().unwrap().funder, None);
    let client = ClobClient::new(creds(KEY, API_KEY, Some("")));
    assert_eq!(client.auth_params().unwrap().funder, None);
}

#[test]
fn auth_params_errors() {
    let e = ClobClient::new(creds("nope", API_KEY, None)).auth_params().err().unwrap();
    assert!(e.starts_with("Erro no Signer: "));
    let e = ClobClient::new(creds(KEY, "not-a-uuid", None)).auth_params().err().unwrap();
    assert!(e.starts_with("API Key inválida (UUID): "));
    assert!(e.len() > "API Key inválida (UUID): ".len());
}

#[test]
fn value_url_lowercases_address() {
    let mut c = creds(KEY, API_KEY, None);
    c.address = "0xABCdef".to_string();
    assert_eq!(ClobClient::new(c).value_url(), "https://data-api.polymarket.com/value?user=0xabcdef");
}

#[test]
fn token_ids_parse_as_limbs() {
    assert_eq!(ClobClient::order_token_id("123").unwrap(), TokenId { w0: 123, w1: 0, w2: 0, w3: 0 });
    assert_eq!(ClobClient::order_token_id("0x10").unwrap(), TokenId { w0: 16, w1: 0, w2: 0, w3: 0 });
    assert_eq!(
        ClobClient::order_token_id("18446744073709551616").unwrap(),
        TokenId { w0: 0, w1: 1, w2: 0, w3: 0 }
    );
}

#[test]
fn token_id_errors_carry_prefix() {
    let raw = ClobClient::order_token_id("12x").err().unwrap();
    assert!(!raw.is_empty());
    let e = ClobClient::balance_token_id("12x").err().unwrap();
    assert_eq!(e, format!("Token ID inválido: {}", raw));
}

#[test]
fn open_order_sides() {
    assert_eq!(order_side(ChangeSide::Buy), Side::BUY);
    assert_eq!(order_side(ChangeSide::Sell), Side::SELL);
    assert_eq!(order_side(ChangeSide::Other), Side::BUY);
}

#[test]
fn funder_address_forms() {
    let upper = ClobClient::new(creds(KEY, API_KEY, Some("0XABCDEF00000000000000000000000000000000FF")));
    let f = upper.auth_params().unwrap().funder.unwrap();
    assert_eq!(f[0], 0xab);
    assert_eq!(f[1], 0xcd);
    assert_eq!(f[19], 0xff);
    let bare = ClobClient::new(creds(KEY, API_KEY, Some("abcdef00000000000000000000000000000000ff")));
    assert_eq!(bare.auth_params().unwrap().funder, Some(f.clone()));
    let short = ClobClient::new(creds(KEY, API_KEY, Some("0xabcdef00000000000000000000000000000000f")));
    assert_eq!(short.auth_params().unwrap().funder, None);
    let spaced = ClobClient::new(creds(KEY, API_KEY, Some(" 0xabcdef00000000000000000000000000000000ff")));
    assert_eq!(spaced.auth_params().unwrap().funder, None);
}
