//! The metadata of a minted NFT: its name, its attributes and its two URIs,
//! all built from the collection's settings and the token's index.

use vstd::prelude::*;
use crate::decimal::{decimal_digits, decimal_to_ascii, DECIMAL_LIMIT};

verus! {

/// `metadata:`: the text that opens the attributes.
pub open spec fn attributes_prefix() -> Seq<u8> {
    seq![109u8, 101, 116, 97, 100, 97, 116, 97, 58]
}

fn attributes_prefix_bytes() -> (bytes: Vec<u8>)
    ensures
        bytes@ == attributes_prefix(),
{
    vec![109u8, 101, 116, 97, 100, 97, 116, 97, 58]
}

/// `/`: the separator between the content identifier and the file name.
pub open spec fn path_separator() -> Seq<u8> {
    seq![47u8]
}

fn path_separator_bytes() -> (bytes: Vec<u8>)
    ensures
        bytes@ == path_separator(),
{
    vec![47u8]
}

/// `.json;`: the text that closes the attributes.
pub open spec fn attributes_suffix() -> Seq<u8> {
    seq![46u8, 106, 115, 111, 110, 59]
}

fn attributes_suffix_bytes() -> (bytes: Vec<u8>)
    ensures
        bytes@ == attributes_suffix(),
{
    vec![46u8, 106, 115, 111, 110, 59]
}

/// `https://ipfs.io/ipfs/`: the gateway that both URIs start with.
pub open spec fn ipfs_gateway() -> Seq<u8> {
    seq![104u8, 116, 116, 112, 115, 58, 47, 47, 105, 112, 102, 115, 46, 105, 111, 47, 105, 112, 102, 115, 47]
}

fn ipfs_gateway_bytes() -> (bytes: Vec<u8>)
    ensures
        bytes@ == ipfs_gateway(),
{
    vec![104u8, 116, 116, 112, 115, 58, 47, 47, 105, 112, 102, 115, 46, 105, 111, 47, 105, 112, 102, 115, 47]
}

/// `.jpg`: the extension of the media file.
pub open spec fn media_extension() -> Seq<u8> {
    seq![46u8, 106, 112, 103]
}

fn media_extension_bytes() -> (bytes: Vec<u8>)
    ensures
        bytes@ == media_extension(),
{
    vec![46u8, 106, 112, 103]
}

/// `.json`: the extension of the metadata file.
pub open spec fn metadata_extension() -> Seq<u8> {
    seq![46u8, 106, 115, 111, 110]
}

fn metadata_extension_bytes() -> (bytes: Vec<u8>)
    ensures
        bytes@ == metadata_extension(),
{
    vec![46u8, 106, 115, 111, 110]
}

/// ` #`: the text between the collection name and the index in a token's name.
pub open spec fn name_separator() -> Seq<u8> {
    seq![32u8, 35]
}

fn name_separator_bytes() -> (bytes: Vec<u8>)
    ensures
        bytes@ == name_separator(),
{
    vec![32u8, 35]
}

/// The attributes of token `number`: `metadata:<cid>/<number>.json;`.
pub open spec fn attributes_of(cid: Seq<u8>, number: nat) -> Seq<u8> {
    attributes_prefix() + cid + path_separator() + decimal_digits(number) + attributes_suffix()
}

/// The URI of the media file of token `number`:
/// `https://ipfs.io/ipfs/<cid>/<number>.jpg`.
pub open spec fn media_uri_of(cid: Seq<u8>, number: nat) -> Seq<u8> {
    ipfs_gateway() + cid + path_separator() + decimal_digits(number) + media_extension()
}

/// The URI of the metadata file of token `number`:
/// `https://ipfs.io/ipfs/<cid>/<number>.json`.
pub open spec fn metadata_uri_of(cid: Seq<u8>, number: nat) -> Seq<u8> {
    ipfs_gateway() + cid + path_separator() + decimal_digits(number) + metadata_extension()
}

/// The name of token `number` of the collection `collection_name`:
/// `<collection name> #<number>`.
pub open spec fn name_of(collection_name: Seq<u8>, number: nat) -> Seq<u8> {
    collection_name + name_separator() + decimal_digits(number)
}

/// The bytes of `a` followed by those of `b`.
fn concat(a: &Vec<u8>, b: &Vec<u8>) -> (joined: Vec<u8>)
    ensures
        joined@ == a@ + b@,
{
    let mut joined = a.clone();
    assert(joined@ =~= a@);
    let mut tail = b.clone();
    assert(tail@ =~= b@);
    joined.append(&mut tail);
    joined
}

/// Builds the attributes of token `number` under the content identifier `cid`.
pub fn attributes_for(cid: &Vec<u8>, number: u64) -> (attributes: Vec<u8>)
    requires
        number < DECIMAL_LIMIT,
    ensures
        attributes@ == attributes_of(cid@, number as nat),
{
    let mut attributes = attributes_prefix_bytes();
    attributes = concat(&attributes, cid);
    attributes = concat(&attributes, &path_separator_bytes());
    attributes = concat(&attributes, &decimal_to_ascii(number));
    attributes = concat(&attributes, &attributes_suffix_bytes());
    attributes
}

/// Builds the media URI and the metadata URI of token `number`, in that order.
pub fn uris_for(cid: &Vec<u8>, number: u64) -> (uris: Vec<Vec<u8>>)
    requires
        number < DECIMAL_LIMIT,
    ensures
        uris@.len() == 2,
        uris@[0]@ == media_uri_of(cid@, number as nat),
        uris@[1]@ == metadata_uri_of(cid@, number as nat),
{
    let digits = decimal_to_ascii(number);
    let mut stem = ipfs_gateway_bytes();
    stem = concat(&stem, cid);
    stem = concat(&stem, &path_separator_bytes());
    stem = concat(&stem, &digits);
    let media_uri = concat(&stem, &media_extension_bytes());
    let metadata_uri = concat(&stem, &metadata_extension_bytes());
    let mut uris: Vec<Vec<u8>> = Vec::new();
    uris.push(media_uri);
    uris.push(metadata_uri);
    uris
}

/// Builds the name of token `number` of the collection `collection_name`.
pub fn name_for(collection_name: &Vec<u8>, number: u64) -> (name: Vec<u8>)
    requires
        number < DECIMAL_LIMIT,
    ensures
        name@ == name_of(collection_name@, number as nat),
{
    let mut name = concat(collection_name, &name_separator_bytes());
    name = concat(&name, &decimal_to_ascii(number));
    name
}

} // verus!
