# tldr_keystore

Storage backends for elliptic-curve JSON Web Keys, each key with an advertisement state,
written in Verus.

- `src/` is the verified library: the key model and its RFC 7638 thumbprint (`jwk`,
  `digest`), a map of keys by thumbprint (`keys`), the in-memory store (`backend::vec`),
  the decisions of the directory store (`backend::dir`), the item codec, URL configuration
  and service decisions of the DynamoDB store (`backend::dynamodb`), and the choice of a
  backend by URL scheme (`backend`).
- `app/` holds what touches the disk and the network: the asynchronous store interface, the
  directory and DynamoDB stores that call the library, and the JSON form of keys.
- `tests/` runs the library on concrete keys, directories and items.
