use kinode_pubsub::address::{Address, AddressParseError, PackageId, ProcessId};

#[test]
fn address_round_trip() {
    let text = "node123@process1:packageA:publisherB";
    let address = Address::from_str(text).unwrap();
    assert_eq!(address.node(), "node123");
    assert_eq!(address.process.process_name, "process1");
    assert_eq!(address.process.package_name, "packageA");
    assert_eq!(address.process.publisher_node, "publisherB");
    assert_eq!(address.to_string(), text);
}

#[test]
fn address_parse_errors() {
    assert_eq!(Address::from_str("").unwrap_err(), AddressParseError::MissingNodeId);
    assert_eq!(
        Address::from_str("@process1:packageA:publisherB").unwrap_err(),
        AddressParseError::MissingNodeId
    );
    assert_eq!(
        Address::from_str("a@b@c:d:e").unwrap_err(),
        AddressParseError::TooManyAts
    );
    assert_eq!(
        Address::from_str("node@process:package").unwrap_err(),
        AddressParseError::MissingField
    );
    assert_eq!(
        Address::from_str("node@p:q:r:s").unwrap_err(),
        AddressParseError::TooManyColons
    );
}

#[test]
fn package_id_of_address() {
    let address = Address::new("our.os", ProcessId::new("pub-news", "pubsub", "template.os"));
    let package = address.package_id();
    assert!(package == PackageId::new("pubsub", "template.os"));
    assert_eq!(package.to_string(), "pubsub:template.os");
    assert_eq!(address.to_string(), "our.os@pub-news:pubsub:template.os");
}
