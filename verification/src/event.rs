//! Events as the chain shows them, a kind and a list of attributes, and the
//! reports that are written into them and read back from them.

use crate::decimal::{decimal_from_text, decimal_text, Decimal};
use crate::error::Error;
use crate::ibc::IbcChannel;
use crate::msg::contract::nft::{
    ApprovalEvent, ApproveAllEvent, BurnEvent, MintEvent, RevokeAllEvent, RevokeEvent,
    TransferEvent,
};
use crate::msg::contract::warehouse::{AddProductEvent, PurchaseEvent};
use crate::msg::product::Product;
use crate::msg::purchase::Purchase;
use crate::text::{
    digits, number_text, parse_number, parse_number_u32, spec_parse_u32, spec_parse_u64,
};
use vstd::prelude::*;
use vstd::string::*;

verus! {

/// A named value of an event.
#[derive(Clone, Debug, PartialEq, Eq)]
pub struct Attribute {
    pub key: String,
    pub value: String,
}

/// An event as the chain shows it.
#[derive(Clone, Debug, PartialEq, Eq)]
pub struct RawEvent {
    /// The event's kind. The chain puts `wasm-` before the kind under which
    /// a contract has reported it.
    pub ty: String,
    pub attributes: Vec<Attribute>,
}

/// The value of the first attribute called `key`, if there is one.
pub open spec fn attr_value(attributes: Seq<Attribute>, key: Seq<char>) -> Option<String>
    decreases attributes.len(),
{
    if attributes.len() == 0 {
        None
    } else {
        match attr_value(attributes.drop_last(), key) {
            Some(v) => Some(v),
            None => if attributes.last().key@ == key {
                Some(attributes.last().value)
            } else {
                None
            },
        }
    }
}

/// The first attribute called `key` among the first `n` is the first among
/// all.
pub proof fn lemma_attr_value_stays(attributes: Seq<Attribute>, n: int, key: Seq<char>)
    requires
        0 <= n <= attributes.len(),
        attr_value(attributes.take(n), key) is Some,
    ensures
        attr_value(attributes, key) == attr_value(attributes.take(n), key),
    decreases attributes.len() - n,
{
    if n < attributes.len() {
        assert(attributes.take(n + 1).drop_last() =~= attributes.take(n));
        lemma_attr_value_stays(attributes, n + 1, key);
    } else {
        assert(attributes.take(n) =~= attributes);
    }
}

/// The text under `key`, or that the attribute is missing.
pub open spec fn spec_string_attr(attributes: Seq<Attribute>, key: Seq<char>) -> Result<
    String,
    Error,
> {
    match attr_value(attributes, key) {
        Some(v) => Ok(v),
        None => Err(Error::MissingAttribute),
    }
}

/// The number of 64 bits under `key`, or why there is none.
pub open spec fn spec_u64_attr(attributes: Seq<Attribute>, key: Seq<char>) -> Result<u64, Error> {
    match attr_value(attributes, key) {
        Some(v) => match spec_parse_u64(v@) {
            Some(n) => Ok(n),
            None => Err(Error::MalformedAttribute),
        },
        None => Err(Error::MissingAttribute),
    }
}

/// The number of 32 bits under `key`, or why there is none.
pub open spec fn spec_u32_attr(attributes: Seq<Attribute>, key: Seq<char>) -> Result<u32, Error> {
    match attr_value(attributes, key) {
        Some(v) => match spec_parse_u32(v@) {
            Some(n) => Ok(n),
            None => Err(Error::MalformedAttribute),
        },
        None => Err(Error::MissingAttribute),
    }
}

impl RawEvent {
    /// The text under `key`.
    pub fn string_attr(&self, key: &str) -> (r: Result<String, Error>)
        ensures
            r == spec_string_attr(self.attributes@, key@),
    {
        let wanted = String::from_str(key);
        let mut found: Option<String> = None;
        let mut k: usize = 0;
        while k < self.attributes.len() && found.is_none()
            invariant
                k <= self.attributes@.len(),
                wanted@ == key@,
                found == attr_value(self.attributes@.take(k as int), key@),
            decreases self.attributes@.len() - k,
        {
            proof {
                assert(self.attributes@.take(k + 1).drop_last() =~= self.attributes@.take(
                    k as int,
                ));
            }
            if self.attributes[k].key == wanted {
                found = Some(self.attributes[k].value.clone());
            }
            k += 1;
        }
        proof {
            if found.is_some() {
                lemma_attr_value_stays(self.attributes@, k as int, key@);
            } else {
                assert(self.attributes@.take(k as int) =~= self.attributes@);
            }
        }
        match found {
            Some(v) => Ok(v),
            None => Err(Error::MissingAttribute),
        }
    }

    /// The number of 64 bits under `key`.
    pub fn u64_attr(&self, key: &str) -> (r: Result<u64, Error>)
        ensures
            r == spec_u64_attr(self.attributes@, key@),
    {
        let text = self.string_attr(key)?;
        match parse_number(text.as_str()) {
            Some(n) => Ok(n),
            None => Err(Error::MalformedAttribute),
        }
    }

    /// The number of 32 bits under `key`.
    pub fn u32_attr(&self, key: &str) -> (r: Result<u32, Error>)
        ensures
            r == spec_u32_attr(self.attributes@, key@),
    {
        let text = self.string_attr(key)?;
        match parse_number_u32(text.as_str()) {
            Some(n) => Ok(n),
            None => Err(Error::MalformedAttribute),
        }
    }
}

/// Whether `a` is the attribute `key` with the text `value`.
pub open spec fn is_attr(a: Attribute, key: Seq<char>, value: Seq<char>) -> bool {
    a.key@ == key && a.value@ == value
}

/// An attribute.
fn attr(key: &str, value: String) -> (r: Attribute)
    ensures
        r.key@ == key@,
        r.value == value,
{
    Attribute { key: String::from_str(key), value }
}

/// Whether `attributes` are those of the report of a purchase.
pub open spec fn is_purchase_attrs(attributes: Seq<Attribute>, p: Purchase) -> bool {
    &&& attributes.len() == 5
    &&& is_attr(attributes[0], "id"@, digits(p.id as nat))
    &&& is_attr(attributes[1], "product-id"@, digits(p.product_id as nat))
    &&& is_attr(attributes[2], "group-id"@, digits(p.group_id as nat))
    &&& is_attr(attributes[3], "quantity"@, digits(p.quantity as nat))
    &&& is_attr(attributes[4], "spender"@, p.spender@)
}

/// The purchase that an event reports, or why it reports none.
pub open spec fn spec_purchase_from(evt: RawEvent) -> Result<PurchaseEvent, Error> {
    let a = evt.attributes@;
    if evt.ty@ != "wasm-purchase"@ {
        Err(Error::UnexpectedEventType)
    } else if spec_u64_attr(a, "id"@) is Err {
        Err(spec_u64_attr(a, "id"@)->Err_0)
    } else if spec_u32_attr(a, "product-id"@) is Err {
        Err(spec_u32_attr(a, "product-id"@)->Err_0)
    } else if spec_u64_attr(a, "group-id"@) is Err {
        Err(spec_u64_attr(a, "group-id"@)->Err_0)
    } else if spec_u32_attr(a, "quantity"@) is Err {
        Err(spec_u32_attr(a, "quantity"@)->Err_0)
    } else if spec_string_attr(a, "spender"@) is Err {
        Err(Error::MissingAttribute)
    } else {
        Ok(
            PurchaseEvent {
                purchase: Purchase {
                    id: spec_u64_attr(a, "id"@)->Ok_0,
                    product_id: spec_u32_attr(a, "product-id"@)->Ok_0,
                    quantity: spec_u32_attr(a, "quantity"@)->Ok_0,
                    spender: spec_string_attr(a, "spender"@)->Ok_0,
                    group_id: spec_u64_attr(a, "group-id"@)->Ok_0,
                },
            },
        )
    }
}

impl PurchaseEvent {
    /// The report as an event of the kind `purchase`.
    pub fn to_event(&self) -> (r: RawEvent)
        ensures
            r.ty@ == "purchase"@,
            is_purchase_attrs(r.attributes@, self.purchase),
    {
        let mut attributes: Vec<Attribute> = Vec::new();
        attributes.push(attr("id", number_text(self.purchase.id)));
        attributes.push(attr("product-id", number_text(self.purchase.product_id as u64)));
        attributes.push(attr("group-id", number_text(self.purchase.group_id)));
        attributes.push(attr("quantity", number_text(self.purchase.quantity as u64)));
        attributes.push(attr("spender", self.purchase.spender.clone()));
        RawEvent { ty: String::from_str("purchase"), attributes }
    }

    /// The purchase that an event of the chain reports.
    pub fn try_from(evt: &RawEvent) -> (r: Result<PurchaseEvent, Error>)
        ensures
            r == spec_purchase_from(*evt),
    {
        if !(evt.ty == String::from_str("wasm-purchase")) {
            return Err(Error::UnexpectedEventType);
        }
        let id = evt.u64_attr("id")?;
        let product_id = evt.u32_attr("product-id")?;
        let group_id = evt.u64_attr("group-id")?;
        let quantity = evt.u32_attr("quantity")?;
        let spender = evt.string_attr("spender")?;
        Ok(PurchaseEvent { purchase: Purchase { id, product_id, quantity, spender, group_id } })
    }
}

/// What is written into the event of a purchase is read back from it as it
/// was, once the chain has put `wasm-` before its kind.
pub proof fn law_purchase_event_reads_back(evt: RawEvent, p: Purchase)
    requires
        evt.ty@ == "wasm-purchase"@,
        is_purchase_attrs(evt.attributes@, p),
    ensures
        spec_purchase_from(evt) matches Ok(e) && e.purchase.id == p.id && e.purchase.product_id
            == p.product_id && e.purchase.group_id == p.group_id && e.purchase.quantity
            == p.quantity && e.purchase.spender@ == p.spender@,
{
    let a = evt.attributes@;
    reveal_strlit("id");
    reveal_strlit("product-id");
    reveal_strlit("group-id");
    reveal_strlit("quantity");
    reveal_strlit("spender");
    assert("id"@.len() == 2);
    assert("product-id"@.len() == 10);
    assert("group-id"@.len() == 8);
    assert("quantity"@.len() == 8);
    assert("spender"@.len() == 7);
    assert("group-id"@[0] != "quantity"@[0]);
    crate::text::law_parse_reads_digits(p.id);
    crate::text::law_parse_reads_digits(p.product_id as u64);
    crate::text::law_parse_reads_digits(p.group_id);
    crate::text::law_parse_reads_digits(p.quantity as u64);
    assert(a.take(1).drop_last() =~= a.take(0));
    assert(a.take(2).drop_last() =~= a.take(1));
    assert(a.take(3).drop_last() =~= a.take(2));
    assert(a.take(4).drop_last() =~= a.take(3));
    assert(a.take(5).drop_last() =~= a.take(4));
    assert(a.take(5) =~= a);
    assert(attr_value(a.take(0), "id"@).is_none());
    assert(attr_value(a.take(1), "id"@) == Some(a[0].value));
    lemma_attr_value_stays(a, 1, "id"@);
    assert(attr_value(a.take(0), "product-id"@).is_none());
    assert(attr_value(a.take(1), "product-id"@).is_none());
    assert(attr_value(a.take(2), "product-id"@) == Some(a[1].value));
    lemma_attr_value_stays(a, 2, "product-id"@);
    assert(attr_value(a.take(0), "group-id"@).is_none());
    assert(attr_value(a.take(1), "group-id"@).is_none());
    assert(attr_value(a.take(2), "group-id"@).is_none());
    assert(attr_value(a.take(3), "group-id"@) == Some(a[2].value));
    lemma_attr_value_stays(a, 3, "group-id"@);
    assert(attr_value(a.take(0), "quantity"@).is_none());
    assert(attr_value(a.take(1), "quantity"@).is_none());
    assert(attr_value(a.take(2), "quantity"@).is_none());
    assert(attr_value(a.take(3), "quantity"@).is_none());
    assert(attr_value(a.take(4), "quantity"@) == Some(a[3].value));
    lemma_attr_value_stays(a, 4, "quantity"@);
    assert(attr_value(a.take(0), "spender"@).is_none());
    assert(attr_value(a.take(1), "spender"@).is_none());
    assert(attr_value(a.take(2), "spender"@).is_none());
    assert(attr_value(a.take(3), "spender"@).is_none());
    assert(attr_value(a.take(4), "spender"@).is_none());
    assert(attr_value(a.take(5), "spender"@) == Some(a[4].value));
}

/// Whether `attributes` are those of the report of a new product.
pub open spec fn is_product_attrs(attributes: Seq<Attribute>, p: Product) -> bool {
    &&& attributes.len() == 4
    &&& is_attr(attributes[0], "id"@, digits(p.id as nat))
    &&& is_attr(attributes[1], "name"@, p.name@)
    &&& is_attr(attributes[2], "price"@, decimal_text(p.price@))
    &&& is_attr(attributes[3], "stock"@, digits(p.stock as nat))
}

/// Why an event reports no new product, if it reports none.
pub open spec fn product_event_error(evt: RawEvent) -> Option<Error> {
    let a = evt.attributes@;
    if evt.ty@ != "wasm-add-product"@ {
        Some(Error::UnexpectedEventType)
    } else if spec_u32_attr(a, "id"@) is Err {
        Some(spec_u32_attr(a, "id"@)->Err_0)
    } else if spec_string_attr(a, "name"@) is Err {
        Some(Error::MissingAttribute)
    } else if spec_string_attr(a, "price"@) is Err {
        Some(Error::MissingAttribute)
    } else if decimal_from_text(spec_string_attr(a, "price"@)->Ok_0@).is_none() {
        Some(Error::MalformedAttribute)
    } else if spec_u32_attr(a, "stock"@) is Err {
        Some(spec_u32_attr(a, "stock"@)->Err_0)
    } else {
        None
    }
}

impl AddProductEvent {
    /// The report as an event of the kind `add-product`.
    pub fn to_event(&self) -> (r: RawEvent)
        ensures
            r.ty@ == "add-product"@,
            is_product_attrs(r.attributes@, self.product),
    {
        let mut attributes: Vec<Attribute> = Vec::new();
        attributes.push(attr("id", number_text(self.product.id as u64)));
        attributes.push(attr("name", self.product.name.clone()));
        attributes.push(attr("price", self.product.price.to_string()));
        attributes.push(attr("stock", number_text(self.product.stock as u64)));
        RawEvent { ty: String::from_str("add-product"), attributes }
    }

    /// The product that an event of the chain reports.
    pub fn try_from(evt: &RawEvent) -> (r: Result<AddProductEvent, Error>)
        ensures
            match r {
                Ok(e) => {
                    let a = evt.attributes@;
                    &&& product_event_error(*evt).is_none()
                    &&& e.product.id == spec_u32_attr(a, "id"@)->Ok_0
                    &&& e.product.name == spec_string_attr(a, "name"@)->Ok_0
                    &&& Some(e.product.price@) == decimal_from_text(
                        spec_string_attr(a, "price"@)->Ok_0@,
                    )
                    &&& e.product.stock == spec_u32_attr(a, "stock"@)->Ok_0
                },
                Err(e) => product_event_error(*evt) == Some(e),
            },
    {
        let price = match evt.string_attr("price") {
            Ok(text) => Ok(Decimal::parse(text.as_str())),
            Err(e) => Err(e),
        };
        AddProductEvent::with_price(evt, price)
    }

    /// The product that an event of the chain reports, given what its price
    /// attribute spells: a decimal, or none, or that there is no such
    /// attribute.
    pub fn with_price(evt: &RawEvent, price: Result<Option<Decimal>, Error>) -> (r: Result<
        AddProductEvent,
        Error,
    >)
        ensures
            r == (if evt.ty@ != "wasm-add-product"@ {
                Err::<AddProductEvent, Error>(Error::UnexpectedEventType)
            } else if spec_u32_attr(evt.attributes@, "id"@) is Err {
                Err(spec_u32_attr(evt.attributes@, "id"@)->Err_0)
            } else if spec_string_attr(evt.attributes@, "name"@) is Err {
                Err(Error::MissingAttribute)
            } else if price is Err {
                Err(price->Err_0)
            } else if price->Ok_0 is None {
                Err(Error::MalformedAttribute)
            } else if spec_u32_attr(evt.attributes@, "stock"@) is Err {
                Err(spec_u32_attr(evt.attributes@, "stock"@)->Err_0)
            } else {
                Ok(
                    AddProductEvent {
                        product: Product {
                            id: spec_u32_attr(evt.attributes@, "id"@)->Ok_0,
                            name: spec_string_attr(evt.attributes@, "name"@)->Ok_0,
                            price: price->Ok_0->Some_0,
                            stock: spec_u32_attr(evt.attributes@, "stock"@)->Ok_0,
                        },
                    },
                )
            }),
    {
        if !(evt.ty == String::from_str("wasm-add-product")) {
            return Err(Error::UnexpectedEventType);
        }
        let id = evt.u32_attr("id")?;
        let name = evt.string_attr("name")?;
        let price = match price? {
            Some(price) => price,
            None => {
                return Err(Error::MalformedAttribute);
            },
        };
        let stock = evt.u32_attr("stock")?;
        Ok(AddProductEvent { product: Product { id, name, price, stock } })
    }
}

impl MintEvent {
    /// The report as an event of the kind `mint`.
    pub fn to_event(&self) -> (r: RawEvent)
        ensures
            r.ty@ == "mint"@,
            r.attributes@.len() == 2,
            is_attr(r.attributes@[0], "token_id"@, self.token_id@),
            is_attr(r.attributes@[1], "owner"@, self.owner@),
    {
        let mut attributes: Vec<Attribute> = Vec::new();
        attributes.push(attr("token_id", self.token_id.clone()));
        attributes.push(attr("owner", self.owner.clone()));
        RawEvent { ty: String::from_str("mint"), attributes }
    }

    /// The token that an event of the chain reports.
    pub fn try_from(evt: &RawEvent) -> (r: Result<MintEvent, Error>)
        ensures
            r == (match (
                attr_value(evt.attributes@, "token_id"@),
                attr_value(evt.attributes@, "owner"@),
            ) {
                (Some(token_id), Some(owner)) => Ok::<MintEvent, Error>(
                    MintEvent { token_id, owner },
                ),
                _ => Err(Error::MissingAttribute),
            }),
    {
        let token_id = evt.string_attr("token_id")?;
        let owner = evt.string_attr("owner")?;
        Ok(MintEvent { token_id, owner })
    }
}

impl BurnEvent {
    /// The report as an event of the kind `burn`.
    pub fn to_event(&self) -> (r: RawEvent)
        ensures
            r.ty@ == "burn"@,
            r.attributes@.len() == 1,
            is_attr(r.attributes@[0], "token_id"@, self.token_id@),
    {
        let mut attributes: Vec<Attribute> = Vec::new();
        attributes.push(attr("token_id", self.token_id.clone()));
        RawEvent { ty: String::from_str("burn"), attributes }
    }

    /// The token that an event of the chain reports.
    pub fn try_from(evt: &RawEvent) -> (r: Result<BurnEvent, Error>)
        ensures
            r == (match attr_value(evt.attributes@, "token_id"@) {
                Some(token_id) => Ok::<BurnEvent, Error>(BurnEvent { token_id }),
                None => Err(Error::MissingAttribute),
            }),
    {
        let token_id = evt.string_attr("token_id")?;
        Ok(BurnEvent { token_id })
    }
}

impl RevokeEvent {
    /// The report as an event of the kind `revoke`.
    pub fn to_event(&self) -> (r: RawEvent)
        ensures
            r.ty@ == "revoke"@,
            r.attributes@.len() == 2,
            is_attr(r.attributes@[0], "token_id"@, self.token_id@),
            is_attr(r.attributes@[1], "spender"@, self.spender@),
    {
        let mut attributes: Vec<Attribute> = Vec::new();
        attributes.push(attr("token_id", self.token_id.clone()));
        attributes.push(attr("spender", self.spender.clone()));
        RawEvent { ty: String::from_str("revoke"), attributes }
    }
}

impl RevokeAllEvent {
    /// The report as an event of the kind `revoke-all`.
    pub fn to_event(&self) -> (r: RawEvent)
        ensures
            r.ty@ == "revoke-all"@,
            r.attributes@.len() == 1,
            is_attr(r.attributes@[0], "operator"@, self.operator@),
    {
        let mut attributes: Vec<Attribute> = Vec::new();
        attributes.push(attr("operator", self.operator.clone()));
        RawEvent { ty: String::from_str("revoke-all"), attributes }
    }
}

impl TransferEvent {
    /// The report as an event of the kind `transfer`.
    pub fn to_event(&self) -> (r: RawEvent)
        ensures
            r.ty@ == "transfer"@,
            r.attributes@.len() == 2,
            is_attr(r.attributes@[0], "recipient"@, self.recipient@),
            is_attr(r.attributes@[1], "token_id"@, self.token_id@),
    {
        let mut attributes: Vec<Attribute> = Vec::new();
        attributes.push(attr("recipient", self.recipient.clone()));
        attributes.push(attr("token_id", self.token_id.clone()));
        RawEvent { ty: String::from_str("transfer"), attributes }
    }
}

impl ApprovalEvent {
    /// The report as an event of the kind `approval`, given the text that
    /// spells when the approval ends.
    pub fn to_event(&self, expires: String) -> (r: RawEvent)
        ensures
            r.ty@ == "approval"@,
            r.attributes@.len() == 3,
            is_attr(r.attributes@[0], "token_id"@, self.token_id@),
            is_attr(r.attributes@[1], "spender"@, self.spender@),
            is_attr(r.attributes@[2], "expires"@, expires@),
    {
        let mut attributes: Vec<Attribute> = Vec::new();
        attributes.push(attr("token_id", self.token_id.clone()));
        attributes.push(attr("spender", self.spender.clone()));
        attributes.push(attr("expires", expires));
        RawEvent { ty: String::from_str("approval"), attributes }
    }
}

impl ApproveAllEvent {
    /// The report as an event of the kind `approve-all`, given the text that
    /// spells when the grant ends.
    pub fn to_event(&self, expires: String) -> (r: RawEvent)
        ensures
            r.ty@ == "approve-all"@,
            r.attributes@.len() == 2,
            is_attr(r.attributes@[0], "operator"@, self.operator@),
            is_attr(r.attributes@[1], "expires"@, expires@),
    {
        let mut attributes: Vec<Attribute> = Vec::new();
        attributes.push(attr("operator", self.operator.clone()));
        attributes.push(attr("expires", expires));
        RawEvent { ty: String::from_str("approve-all"), attributes }
    }
}

/// The report of what happened to a channel, as an event of the kind `kind`
/// that names the channel's two ends, its version and its connection.
pub fn channel_event(kind: &str, channel: &IbcChannel) -> (r: RawEvent)
    ensures
        r.ty@ == kind@,
        r.attributes@.len() == 6,
        is_attr(r.attributes@[0], "endpoint_id"@, channel.endpoint.channel_id@),
        is_attr(r.attributes@[1], "endpoint_port_id"@, channel.endpoint.port_id@),
        is_attr(
            r.attributes@[2],
            "counterparty_endpoint_id"@,
            channel.counterparty_endpoint.channel_id@,
        ),
        is_attr(
            r.attributes@[3],
            "counterparty_endpoint_port_id"@,
            channel.counterparty_endpoint.port_id@,
        ),
        is_attr(r.attributes@[4], "version"@, channel.version@),
        is_attr(r.attributes@[5], "connection_id"@, channel.connection_id@),
{
    let mut attributes: Vec<Attribute> = Vec::new();
    attributes.push(attr("endpoint_id", channel.endpoint.channel_id.clone()));
    attributes.push(attr("endpoint_port_id", channel.endpoint.port_id.clone()));
    attributes.push(attr("counterparty_endpoint_id", channel.counterparty_endpoint.channel_id.clone()));
    attributes.push(
        attr("counterparty_endpoint_port_id", channel.counterparty_endpoint.port_id.clone()),
    );
    attributes.push(attr("version", channel.version.clone()));
    attributes.push(attr("connection_id", channel.connection_id.clone()));
    RawEvent { ty: String::from_str(kind), attributes }
}

} // verus!
