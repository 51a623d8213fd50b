use tldr_keystore::error::StoreError;

#[test]
fn messages_name_their_subject() {
    assert_eq!(StoreError::ThumbprintNotFound.message(), "Thumbprint not found.");
    assert_eq!(
        StoreError::AdvertisedAndUnadvertised("t".into()).message(),
        "Key for thumbprint t is both advertised and unadvertised."
    );
    assert_eq!(
        StoreError::TableLookupFailed { table: "keys".into(), message: "boom".into() }.message(),
        "Failure while looking up table keys: boom"
    );
    assert_eq!(
        StoreError::SigningKeyOutsideStore("t".into()).message(),
        "Signing Key file t does not live in keystore."
    );
    assert_eq!(StoreError::UndecodableKey("t".into()).message(), "Failed to deserialize key t from database");
    assert_eq!(StoreError::SchemeNotDynamoDb.message(), "Scheme must be dynamodb://");
}
