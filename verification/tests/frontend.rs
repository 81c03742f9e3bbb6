use w3bay::frontend::config::{
    Config, ContractName, DeployConfig, DeployContactConfig, Environment,
};
use w3bay::decimal::Decimal;
use w3bay::frontend::merchant::{product_of, AddProduct};
use w3bay::frontend::route::{split_path, ConsumerSection, MerchantSection, Route};

fn config(root_path: &'static str) -> Config {
    Config {
        root_path,
        media_root: "http://localhost:9000",
        default_lang: None,
        auto_connect: true,
        start_route: Some(Route::Merchant(MerchantSection::Shipments)),
        query_poll_delay_ms: 3000,
    }
}

fn contract(address: &str) -> DeployContactConfig {
    DeployContactConfig {
        code_id: 1,
        address: address.to_string(),
        hash: "h".to_string(),
        ibc_port: "wasm.x".to_string(),
    }
}

#[test]
fn environment_names() {
    assert_eq!(Environment::Local.as_str(), "local");
    assert_eq!(Environment::Testnet.as_str(), "testnet");
    assert_eq!(Environment::from_name("local"), Some(Environment::Local));
    assert_eq!(Environment::from_name("testnet"), Some(Environment::Testnet));
    assert_eq!(Environment::from_name("mainnet"), None);
}

#[test]
fn image_urls_hang_below_the_media_root() {
    assert_eq!(config("").app_image_url("logo.png"), "http://localhost:9000/logo.png");
}

#[test]
fn links_respect_the_root_path() {
    assert_eq!(Route::Landing.link(""), "/");
    assert_eq!(Route::Merchant(MerchantSection::Products).link(""), "/merchant/products");
    assert_eq!(
        Route::Consumer(ConsumerSection::Purchases).link("w3bay"),
        "/w3bay/consumer/purchases"
    );
    assert_eq!(Route::NotFound.link("w3bay"), "/w3bay/404");
    assert_eq!(Route::Merchant(MerchantSection::Shipments).to_string(), "merchant/shipments");
    assert_eq!(Route::Consumer(ConsumerSection::Products).to_string(), "consumer/products");
}

#[test]
fn paths_name_pages() {
    let seg = |v: &[&str]| v.iter().map(|s| s.to_string()).collect::<Vec<String>>();
    assert_eq!(Route::from_segments(&seg(&[""]), false), Route::Landing);
    assert_eq!(Route::from_segments(&seg(&["/"]), true), Route::Landing);
    assert_eq!(
        Route::from_segments(&seg(&["merchant", "shipments"]), true),
        Route::Merchant(MerchantSection::Shipments)
    );
    assert_eq!(Route::from_segments(&seg(&["merchant", "shipments"]), false), Route::Landing);
    assert_eq!(
        Route::from_segments(&seg(&["consumer", "purchases"]), true),
        Route::Consumer(ConsumerSection::Purchases)
    );
    assert_eq!(Route::from_segments(&seg(&["consumer", "cart"]), true), Route::NotFound);
    assert_eq!(Route::from_segments(&seg(&["consumer", "cart"]), false), Route::NotFound);
    assert_eq!(Route::from_segments(&seg(&[]), true), Route::NotFound);
    assert_eq!(Route::from_segments(&seg(&["a", "b", "c"]), true), Route::NotFound);
}

#[test]
fn contracts_are_found_by_environment() {
    let deploy = DeployConfig {
        warehouse_testnet: contract("wt"),
        payment_testnet: contract("pt"),
        nft_testnet: contract("nt"),
        warehouse_local: contract("wl"),
        payment_local: contract("pl"),
        nft_local: contract("nl"),
    };
    assert_eq!(ContractName::Warehouse.addr(Environment::Local, &deploy), "wl");
    assert_eq!(ContractName::Payment.addr(Environment::Testnet, &deploy), "pt");
    assert_eq!(ContractName::Nft.addr(Environment::Local, &deploy), "nl");
    assert_eq!(ContractName::Nft.deploy_config(Environment::Testnet, &deploy).address, "nt");
}

#[test]
fn paths_are_cut_at_their_slashes() {
    assert_eq!(split_path(""), vec![""]);
    assert_eq!(split_path("/"), vec!["", ""]);
    assert_eq!(split_path("abc"), vec!["abc"]);
    assert_eq!(split_path("/w3bay/merchant/products"), vec!["", "w3bay", "merchant", "products"]);
    assert_eq!(split_path("a//b/"), vec!["a", "", "b", ""]);
    assert_eq!(split_path("/é/€"), vec!["", "é", "€"]);
}

#[test]
fn addresses_name_pages() {
    assert_eq!(Route::from_pathname("/", "", true), Route::Landing);
    assert_eq!(Route::from_pathname("/merchant/products", "", true), Route::Merchant(MerchantSection::Products));
    assert_eq!(Route::from_pathname("/merchant/products", "", false), Route::Landing);
    assert_eq!(
        Route::from_pathname("/w3bay/consumer/products", "w3bay", true),
        Route::Consumer(ConsumerSection::Products)
    );
    assert_eq!(Route::from_pathname("/w3bay/", "w3bay", true), Route::Landing);
    assert_eq!(Route::from_pathname("/w3bay", "w3bay", true), Route::NotFound);
    assert_eq!(Route::from_pathname("/consumer/products", "w3bay", true), Route::NotFound);
    assert_eq!(Route::from_pathname("/merchant/products/x", "", true), Route::NotFound);
    assert_eq!(Route::from_pathname("", "", true), Route::NotFound);
    for route in [
        Route::Landing,
        Route::Merchant(MerchantSection::Products),
        Route::Merchant(MerchantSection::Shipments),
        Route::Consumer(ConsumerSection::Products),
        Route::Consumer(ConsumerSection::Purchases),
    ] {
        assert_eq!(Route::from_pathname(&route.link(""), "", true), route);
        assert_eq!(Route::from_pathname(&route.link("shop"), "shop", true), route);
    }
}

#[test]
fn forms_are_sent_once_they_are_complete() {
    let text = |t: &str| Some(t.to_string());
    let form = AddProduct { name: text("lamp"), price: text("12.5"), stock: text("7") };
    let product = form.get_product().unwrap();
    assert_eq!(product.name, "lamp");
    assert_eq!(product.price, Decimal::from_ratio(25, 2));
    assert_eq!(product.stock, 7);
    let mut partial = form.clone();
    partial.name = None;
    assert_eq!(partial.get_product(), None);
    let mut partial = form.clone();
    partial.price = text("twelve");
    assert_eq!(partial.get_product(), None);
    let mut partial = form.clone();
    partial.stock = text("4294967296");
    assert_eq!(partial.get_product(), None);
    let mut partial = form;
    partial.stock = None;
    assert_eq!(partial.get_product(), None);
    let made = product_of(text("pen"), Some(Decimal::one()), Some(3)).unwrap();
    assert_eq!((made.name.as_str(), made.price, made.stock), ("pen", Decimal::one(), 3));
    assert_eq!(product_of(text("pen"), None, Some(3)), None);
    assert_eq!(product_of(None, Some(Decimal::one()), Some(3)), None);
    assert_eq!(product_of(text("pen"), Some(Decimal::one()), None), None);
}
