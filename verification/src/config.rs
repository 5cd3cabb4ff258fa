//! The settings that a run is given.

use vstd::prelude::*;
use crate::uploader::api::Credentials;
use crate::uploader::types::DeliveryCode;

verus! {

/// The settings: the stock and the delivery code of new offers, and the
/// retailer's key. They are read once and never changed.
#[derive(Debug)]
pub struct Config {
    pub default_stock: u32,
    pub default_delivery_code: DeliveryCode,
    pub bol: Credentials,
}

} // verus!
