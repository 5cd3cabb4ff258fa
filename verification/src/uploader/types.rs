//! The values of an offer and of product content, and the delivery codes.

use vstd::prelude::*;
use vstd::string::StringExecFns;
use crate::text::{chars_of, is_text};

verus! {

/// An offer for one product.
#[derive(Debug)]
pub struct Offer {
    pub ean: String,
    pub condition: Condition,
    pub reference: String,
    pub on_hold_by_retailer: bool,
    pub unknown_product_title: String,
    pub pricing: Pricing,
    pub stock: Stock,
    pub fulfilment: Fulfilment,
}

#[derive(Clone, Copy, Debug, PartialEq, Eq, Structural)]
pub enum ConditionName {
    New,
    AsNew,
    Good,
    Reasonable,
    Moderate,
}

#[derive(Clone, Copy, Debug, PartialEq, Eq, Structural)]
pub enum ConditionCategory {
    New,
    SecondHand,
}

/// The state that the offered product is in.
#[derive(Debug)]
pub struct Condition {
    pub name: ConditionName,
    pub category: ConditionCategory,
    pub comment: Option<String>,
}

impl Default for Condition {
    /// A new product, without comment.
    fn default() -> (r: Self)
        ensures
            r.name == ConditionName::New,
            r.category == ConditionCategory::New,
            r.comment is None,
    {
        Condition { name: ConditionName::New, category: ConditionCategory::New, comment: None }
    }
}

/// The prices of an offer, by quantity.
#[derive(Debug)]
pub struct Pricing {
    pub bundle_prices: Vec<BundlePrice>,
}

/// The unit price from a quantity on. The price is the text of a number.
#[derive(Debug)]
pub struct BundlePrice {
    pub quantity: u32,
    pub unit_price: String,
}

impl Pricing {
    /// One price for every quantity.
    pub fn new(unit_price: &str) -> (r: Self)
        ensures
            r.bundle_prices@.len() == 1,
            r.bundle_prices@[0].quantity == 1,
            r.bundle_prices@[0].unit_price@ == unit_price@,
    {
        let mut bundle_prices: Vec<BundlePrice> = Vec::new();
        bundle_prices.push(BundlePrice { quantity: 1, unit_price: String::from_str(unit_price) });
        Pricing { bundle_prices }
    }
}

#[derive(Clone, Copy, Debug, PartialEq, Eq, Structural)]
pub struct Stock {
    pub amount: i32,
    pub managed_by_retailer: bool,
}

#[derive(Clone, Copy, Debug, PartialEq, Eq, Structural)]
pub enum FulfilmentMethod {
    /// Fulfilment by the retailer.
    Fbr,
    /// Fulfilment by the marketplace.
    Fbb,
}

impl Default for FulfilmentMethod {
    fn default() -> (r: Self)
        ensures
            r == FulfilmentMethod::Fbr,
    {
        FulfilmentMethod::Fbr
    }
}

/// The promise of delivery that an offer makes.
#[derive(Clone, Copy, Debug, PartialEq, Eq, Structural)]
pub enum DeliveryCode {
    U24Uurs23,
    U24Uurs22,
    U24Uurs21,
    U24Uurs20,
    U24Uurs19,
    U24Uurs18,
    U24Uurs17,
    U24Uurs16,
    U24Uurs15,
    U24Uurs14,
    U24Uurs13,
    U24Uurs12,
    D1To2,
    D2To3,
    D3To5,
    D4To8,
    D1To8,
    MijnLeverbelofte,
    VVB,
}

/// A text that names no delivery code.
#[derive(Clone, Copy, Debug, PartialEq, Eq, Structural)]
pub struct InvalidDeliveryCode;

/// The text by which the marketplace names the code.
pub open spec fn code_text(code: DeliveryCode) -> Seq<char> {
    match code {
        DeliveryCode::U24Uurs23 => "24uurs-23"@,
        DeliveryCode::U24Uurs22 => "24uurs-22"@,
        DeliveryCode::U24Uurs21 => "24uurs-21"@,
        DeliveryCode::U24Uurs20 => "24uurs-20"@,
        DeliveryCode::U24Uurs19 => "24uurs-19"@,
        DeliveryCode::U24Uurs18 => "24uurs-18"@,
        DeliveryCode::U24Uurs17 => "24uurs-17"@,
        DeliveryCode::U24Uurs16 => "24uurs-16"@,
        DeliveryCode::U24Uurs15 => "24uurs-15"@,
        DeliveryCode::U24Uurs14 => "24uurs-14"@,
        DeliveryCode::U24Uurs13 => "24uurs-13"@,
        DeliveryCode::U24Uurs12 => "24uurs-12"@,
        DeliveryCode::D1To2 => "1-2d"@,
        DeliveryCode::D2To3 => "2-3d"@,
        DeliveryCode::D3To5 => "3-5d"@,
        DeliveryCode::D4To8 => "4-8d"@,
        DeliveryCode::D1To8 => "1-8d"@,
        DeliveryCode::MijnLeverbelofte => "MijnLeverbelofte"@,
        DeliveryCode::VVB => "VVB"@,
    }
}

/// Whether some code is named `s`.
pub open spec fn names_code(s: Seq<char>) -> bool {
    exists|code: DeliveryCode| code_text(code) == s
}

/// The code that is named `s`, if there is one.
pub open spec fn code_named(s: Seq<char>) -> Option<DeliveryCode> {
    if names_code(s) {
        Some(choose|code: DeliveryCode| code_text(code) == s)
    } else {
        None
    }
}

/// Different codes have different names.
pub proof fn lemma_code_text_injective(a: DeliveryCode, b: DeliveryCode)
    requires
        code_text(a) == code_text(b),
    ensures
        a == b,
{
    reveal_strlit("24uurs-23");
    reveal_strlit("24uurs-22");
    reveal_strlit("24uurs-21");
    reveal_strlit("24uurs-20");
    reveal_strlit("24uurs-19");
    reveal_strlit("24uurs-18");
    reveal_strlit("24uurs-17");
    reveal_strlit("24uurs-16");
    reveal_strlit("24uurs-15");
    reveal_strlit("24uurs-14");
    reveal_strlit("24uurs-13");
    reveal_strlit("24uurs-12");
    reveal_strlit("1-2d");
    reveal_strlit("2-3d");
    reveal_strlit("3-5d");
    reveal_strlit("4-8d");
    reveal_strlit("1-8d");
    reveal_strlit("MijnLeverbelofte");
    reveal_strlit("VVB");
    if a != b {
        let s = code_text(a);
        let t = code_text(b);
        assert(s.len() != t.len() || s[0] != t[0] || s[2] != t[2] || s[7] != t[7] || s[8] != t[8]);
    }
}

impl DeliveryCode {
    /// The code that `s` names: `Ok` exactly where `s` is the name of a
    /// code, and then that code.
    pub fn from_str(s: &str) -> (r: Result<DeliveryCode, InvalidDeliveryCode>)
        ensures
            r == (match code_named(s@) {
                Some(code) => Ok::<DeliveryCode, InvalidDeliveryCode>(code),
                None => Err::<DeliveryCode, InvalidDeliveryCode>(InvalidDeliveryCode),
            }),
            r matches Ok(code) ==> code_text(code) == s@,
    {
        let c = chars_of(s);
        let r = if is_text(&c, "24uurs-23") {
            Ok(DeliveryCode::U24Uurs23)
        } else if is_text(&c, "24uurs-22") {
            Ok(DeliveryCode::U24Uurs22)
        } else if is_text(&c, "24uurs-21") {
            Ok(DeliveryCode::U24Uurs21)
        } else if is_text(&c, "24uurs-20") {
            Ok(DeliveryCode::U24Uurs20)
        } else if is_text(&c, "24uurs-19") {
            Ok(DeliveryCode::U24Uurs19)
        } else if is_text(&c, "24uurs-18") {
            Ok(DeliveryCode::U24Uurs18)
        } else if is_text(&c, "24uurs-17") {
            Ok(DeliveryCode::U24Uurs17)
        } else if is_text(&c, "24uurs-16") {
            Ok(DeliveryCode::U24Uurs16)
        } else if is_text(&c, "24uurs-15") {
            Ok(DeliveryCode::U24Uurs15)
        } else if is_text(&c, "24uurs-14") {
            Ok(DeliveryCode::U24Uurs14)
        } else if is_text(&c, "24uurs-13") {
            Ok(DeliveryCode::U24Uurs13)
        } else if is_text(&c, "24uurs-12") {
            Ok(DeliveryCode::U24Uurs12)
        } else if is_text(&c, "1-2d") {
            Ok(DeliveryCode::D1To2)
        } else if is_text(&c, "2-3d") {
            Ok(DeliveryCode::D2To3)
        } else if is_text(&c, "3-5d") {
            Ok(DeliveryCode::D3To5)
        } else if is_text(&c, "4-8d") {
            Ok(DeliveryCode::D4To8)
        } else if is_text(&c, "1-8d") {
            Ok(DeliveryCode::D1To8)
        } else if is_text(&c, "MijnLeverbelofte") {
            Ok(DeliveryCode::MijnLeverbelofte)
        } else if is_text(&c, "VVB") {
            Ok(DeliveryCode::VVB)
        } else {
            Err(InvalidDeliveryCode)
        };
        proof {
            match r {
                Ok(code) => {
                    assert(code_text(code) == s@);
                    assert(names_code(s@));
                    lemma_code_text_injective(choose|c: DeliveryCode| code_text(c) == s@, code);
                },
                Err(_) => {
                    assert forall|code: DeliveryCode| code_text(code) != s@ by {}
                },
            }
        }
        r
    }

    /// The name of the code.
    pub fn to_string(&self) -> (r: String)
        ensures
            r@ == code_text(*self),
    {
        let name = match self {
            DeliveryCode::U24Uurs23 => "24uurs-23",
            DeliveryCode::U24Uurs22 => "24uurs-22",
            DeliveryCode::U24Uurs21 => "24uurs-21",
            DeliveryCode::U24Uurs20 => "24uurs-20",
            DeliveryCode::U24Uurs19 => "24uurs-19",
            DeliveryCode::U24Uurs18 => "24uurs-18",
            DeliveryCode::U24Uurs17 => "24uurs-17",
            DeliveryCode::U24Uurs16 => "24uurs-16",
            DeliveryCode::U24Uurs15 => "24uurs-15",
            DeliveryCode::U24Uurs14 => "24uurs-14",
            DeliveryCode::U24Uurs13 => "24uurs-13",
            DeliveryCode::U24Uurs12 => "24uurs-12",
            DeliveryCode::D1To2 => "1-2d",
            DeliveryCode::D2To3 => "2-3d",
            DeliveryCode::D3To5 => "3-5d",
            DeliveryCode::D4To8 => "4-8d",
            DeliveryCode::D1To8 => "1-8d",
            DeliveryCode::MijnLeverbelofte => "MijnLeverbelofte",
            DeliveryCode::VVB => "VVB",
        };
        String::from_str(name)
    }
}

/// Reading the name of a code gives the code back, and writing the code
/// that a name was read as gives the name back.
pub proof fn lemma_code_round_trip(code: DeliveryCode, name: Seq<char>)
    ensures
        code_named(code_text(code)) == Some(code),
        code_named(name) matches Some(c) ==> code_text(c) == name,
{
    assert(names_code(code_text(code)));
    let chosen = choose|c: DeliveryCode| code_text(c) == code_text(code);
    lemma_code_text_injective(chosen, code);
}

#[derive(Clone, Copy, Debug, PartialEq, Eq, Structural)]
pub struct Fulfilment {
    pub method: FulfilmentMethod,
    pub delivery_code: DeliveryCode,
}

/// What an offer says.
pub struct OfferView {
    pub ean: Seq<char>,
    pub reference: Seq<char>,
    pub title: Seq<char>,
    pub unit_price: Seq<char>,
    pub stock: i32,
    pub delivery_code: DeliveryCode,
}

impl Offer {
    /// An offer of a new product, fulfilled by the retailer, not on hold,
    /// with one unit price and a stock that the retailer does not manage.
    /// Without a reference the reference is empty.
    pub fn new(
        title: &str,
        ean: &str,
        price: &str,
        stock: i32,
        reference: Option<&str>,
        delivery_code: DeliveryCode,
    ) -> (r: Self)
        ensures
            r.ean@ == ean@,
            r.unknown_product_title@ == title@,
            r.reference@ == (match reference {
                Some(text) => text@,
                None => Seq::<char>::empty(),
            }),
            !r.on_hold_by_retailer,
            r.condition.name == ConditionName::New,
            r.condition.category == ConditionCategory::New,
            r.condition.comment is None,
            r.pricing.bundle_prices@.len() == 1,
            r.pricing.bundle_prices@[0].quantity == 1,
            r.pricing.bundle_prices@[0].unit_price@ == price@,
            r.stock == (Stock { amount: stock, managed_by_retailer: false }),
            r.fulfilment == (Fulfilment { method: FulfilmentMethod::Fbr, delivery_code }),
    {
        Offer {
            ean: String::from_str(ean),
            pricing: Pricing::new(price),
            condition: Condition::default(),
            reference: match reference {
                Some(text) => String::from_str(text),
                None => String::new(),
            },
            on_hold_by_retailer: false,
            stock: Stock { amount: stock, managed_by_retailer: false },
            unknown_product_title: String::from_str(title),
            fulfilment: Fulfilment { method: FulfilmentMethod::default(), delivery_code },
        }
    }
}

/// The content of a product, by language.
#[derive(Debug)]
pub struct Content {
    pub language: Language,
    pub attributes: Vec<Attribute>,
    pub assets: Vec<Asset>,
}

impl Default for Content {
    fn default() -> (r: Self)
        ensures
            r.language == Language::Nl,
            r.attributes@.len() == 0,
            r.assets@.len() == 0,
    {
        Content { language: Language::Nl, attributes: Vec::new(), assets: Vec::new() }
    }
}

#[derive(Debug)]
pub struct Attribute {
    pub id: String,
    pub values: Vec<AttributeValue>,
}

#[derive(Debug)]
pub struct AttributeValue {
    pub value: String,
    pub unit_id: String,
}

#[derive(Debug)]
pub struct Asset {
    pub url: String,
    pub labels: Vec<String>,
}

#[derive(Clone, Copy, Debug, PartialEq, Eq, Structural)]
pub enum Language {
    Nl,
}

impl Default for Language {
    fn default() -> (r: Self)
        ensures
            r == Language::Nl,
    {
        Language::Nl
    }
}

/// What the marketplace answers to a new offer.
#[derive(Debug)]
pub struct CreateOffer {
    pub process_status_id: Option<String>,
    pub entity_id: Option<String>,
    pub event_type: String,
    pub description: String,
    pub error_message: Option<String>,
    pub create_timestamp: String,
    pub links: Vec<OfferLink>,
}

#[derive(Debug)]
pub struct OfferLink {
    pub rel: String,
    pub href: String,
    pub hreflang: String,
    pub media: String,
    pub title: String,
    pub kind: String,
    pub deprecation: String,
    pub profile: String,
    pub name: String,
}

#[derive(Clone, Copy, Debug, PartialEq, Eq, Structural)]
pub enum OfferCreationStatus {
    Pending,
    Success,
    Failure,
    Timeout,
}

} // verus!
