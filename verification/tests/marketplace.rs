use bol_scraper_empire::config::Config;
use bol_scraper_empire::uploader::api::{
    AccessToken, Client, ClientError, Credentials, Method,
};
use bol_scraper_empire::uploader::types::{
    Condition, ConditionCategory, ConditionName, Content, DeliveryCode, FulfilmentMethod,
    InvalidDeliveryCode, Language, Offer, Pricing,
};

fn all_codes() -> Vec<(DeliveryCode, &'static str)> {
    vec![
        (DeliveryCode::U24Uurs23, "24uurs-23"),
        (DeliveryCode::U24Uurs22, "24uurs-22"),
        (DeliveryCode::U24Uurs21, "24uurs-21"),
        (DeliveryCode::U24Uurs20, "24uurs-20"),
        (DeliveryCode::U24Uurs19, "24uurs-19"),
        (DeliveryCode::U24Uurs18, "24uurs-18"),
        (DeliveryCode::U24Uurs17, "24uurs-17"),
        (DeliveryCode::U24Uurs16, "24uurs-16"),
        (DeliveryCode::U24Uurs15, "24uurs-15"),
        (DeliveryCode::U24Uurs14, "24uurs-14"),
        (DeliveryCode::U24Uurs13, "24uurs-13"),
        (DeliveryCode::U24Uurs12, "24uurs-12"),
        (DeliveryCode::D1To2, "1-2d"),
        (DeliveryCode::D2To3, "2-3d"),
        (DeliveryCode::D3To5, "3-5d"),
        (DeliveryCode::D4To8, "4-8d"),
        (DeliveryCode::D1To8, "1-8d"),
        (DeliveryCode::MijnLeverbelofte, "MijnLeverbelofte"),
        (DeliveryCode::VVB, "VVB"),
    ]
}

fn token(text: &str) -> AccessToken {
    AccessToken {
        access_token: text.to_string(),
        token_type: "Bearer".to_string(),
        expires_in: 299,
        scope: "RETAILER".to_string(),
    }
}

#[test]
fn delivery_codes_are_read_and_written() {
    for (code, name) in all_codes() {
        assert_eq!(code.to_string(), name);
        assert_eq!(DeliveryCode::from_str(name), Ok(code));
        assert_eq!(DeliveryCode::from_str(&code.to_string()), Ok(code));
    }
}

#[test]
fn other_texts_name_no_delivery_code() {
    assert_eq!(DeliveryCode::from_str(""), Err(InvalidDeliveryCode));
    assert_eq!(DeliveryCode::from_str("24uurs-24"), Err(InvalidDeliveryCode));
    assert_eq!(DeliveryCode::from_str("vvb"), Err(InvalidDeliveryCode));
    assert_eq!(DeliveryCode::from_str(" 1-2d"), Err(InvalidDeliveryCode));
    assert_eq!(DeliveryCode::from_str("1-2d "), Err(InvalidDeliveryCode));
}

#[test]
fn new_offer_has_the_defaults() {
    let offer = Offer::new("Comfort", "9789059564169", "999.99", 10, Some("REF12345"), DeliveryCode::D1To2);
    assert_eq!(offer.ean, "9789059564169");
    assert_eq!(offer.unknown_product_title, "Comfort");
    assert_eq!(offer.reference, "REF12345");
    assert!(!offer.on_hold_by_retailer);
    assert_eq!(offer.condition.name, ConditionName::New);
    assert_eq!(offer.condition.category, ConditionCategory::New);
    assert_eq!(offer.condition.comment, None);
    assert_eq!(offer.pricing.bundle_prices.len(), 1);
    assert_eq!(offer.pricing.bundle_prices[0].quantity, 1);
    assert_eq!(offer.pricing.bundle_prices[0].unit_price, "999.99");
    assert_eq!(offer.stock.amount, 10);
    assert!(!offer.stock.managed_by_retailer);
    assert_eq!(offer.fulfilment.method, FulfilmentMethod::Fbr);
    assert_eq!(offer.fulfilment.delivery_code, DeliveryCode::D1To2);
    let bare = Offer::new("T", "1", "0", -1, None, DeliveryCode::VVB);
    assert_eq!(bare.reference, "");
    assert_eq!(bare.stock.amount, -1);
}

#[test]
fn defaults_of_the_parts() {
    let condition = Condition::default();
    assert_eq!(condition.name, ConditionName::New);
    assert_eq!(condition.category, ConditionCategory::New);
    assert_eq!(condition.comment, None);
    assert_eq!(FulfilmentMethod::default(), FulfilmentMethod::Fbr);
    assert_eq!(Language::default(), Language::Nl);
    let content = Content::default();
    assert_eq!(content.language, Language::Nl);
    assert!(content.attributes.is_empty());
    assert!(content.assets.is_empty());
    let pricing = Pricing::new("12.50");
    assert_eq!(pricing.bundle_prices.len(), 1);
    assert_eq!(pricing.bundle_prices[0].unit_price, "12.50");
}

#[test]
fn credentials_are_sent_in_base64() {
    let creds = Credentials { client_id: "Aladdin".into(), client_secret: "open sesame".into() };
    assert_eq!(creds.to_string(), Some("QWxhZGRpbjpvcGVuIHNlc2FtZQ==".to_string()));
    let empty = Credentials { client_id: String::new(), client_secret: String::new() };
    assert_eq!(empty.to_string(), Some("Og==".to_string()));
    let wide = Credentials { client_id: "caf\u{e9}".into(), client_secret: "\u{20ac}".into() };
    assert_eq!(wide.to_string(), Some("Y2Fmw6k64oKs".to_string()));
}

#[test]
fn session_request_carries_the_credentials() {
    let creds = Credentials { client_id: "id".into(), client_secret: "secret".into() };
    let request = Client::authentication_request(&creds).unwrap();
    assert_eq!(request.method, Method::Post);
    assert_eq!(request.url, "https://login.bol.com/token?grant_type=client_credentials");
    assert_eq!(request.body, None);
    let headers: Vec<(&str, &str)> =
        request.headers.iter().map(|h| (h.name.as_str(), h.value.as_str())).collect();
    assert_eq!(headers, vec![("content-length", "0"), ("authorization", "Basic aWQ6c2VjcmV0")]);
}

#[test]
fn session_is_taken_only_with_status_200() {
    let mut client = Client::new();
    assert!(client.session.is_none());
    assert_eq!(client.authenticate(401, token("t")), Err(ClientError::Refused(401)));
    assert!(client.session.is_none());
    assert_eq!(client.authenticate(200, token("first")), Ok(()));
    assert_eq!(client.session.as_ref().unwrap().access_token, "first");
    assert_eq!(client.authenticate(500, token("second")), Err(ClientError::Refused(500)));
    assert_eq!(client.session.as_ref().unwrap().access_token, "first");
    assert_eq!(Client::new_with_session(200, token("x")).unwrap().session.unwrap().access_token, "x");
    assert_eq!(Client::new_with_session(202, token("x")).err(), Some(ClientError::Refused(202)));
}

#[test]
fn requests_need_a_session() {
    let client = Client::new();
    assert_eq!(client.request(Method::Get, "/offers", None).err(), Some(ClientError::NotAuthenticated));
    assert_eq!(client.create_offer(vec![1]).err(), Some(ClientError::NotAuthenticated));
    assert_eq!(client.create_product_content(vec![1]).err(), Some(ClientError::NotAuthenticated));
}

#[test]
fn requests_carry_the_token() {
    let client = Client::new_with_session(200, token("abc")).unwrap();
    let request = client.create_offer(vec![123, 125]).unwrap();
    assert_eq!(request.method, Method::Post);
    assert_eq!(request.url, "https://api.bol.com/retailer/offer");
    assert_eq!(request.body, Some(vec![123, 125]));
    let headers: Vec<(&str, &str)> =
        request.headers.iter().map(|h| (h.name.as_str(), h.value.as_str())).collect();
    assert_eq!(
        headers,
        vec![
            ("accept", "application/vnd.retailer.v10+json"),
            ("authorization", "Bearer abc"),
            ("content-type", "application/vnd.retailer.v10+json")
        ]
    );
    let request = client.create_product_content(Vec::new()).unwrap();
    assert_eq!(request.url, "https://api.bol.com/retailer/content/products");
    assert_eq!(request.body, Some(Vec::new()));
    let request = client.request(Method::Delete, "/offers/1", None).unwrap();
    assert_eq!(request.method, Method::Delete);
    assert_eq!(request.url, "https://api.bol.com/retailer/offers/1");
    assert_eq!(request.body, None);
}

#[test]
fn settings_hold_their_values() {
    let config = Config {
        default_stock: 3,
        default_delivery_code: DeliveryCode::D2To3,
        bol: Credentials { client_id: "a".into(), client_secret: "b".into() },
    };
    assert_eq!(config.default_stock, 3);
    assert_eq!(config.default_delivery_code, DeliveryCode::D2To3);
    assert_eq!(config.bol.to_string(), Some("YTpi".to_string()));
}
