//! How the object store of a deployment is addressed.

use vstd::prelude::*;
use vstd::string::*;

verus! {

/// Settings of an S3 store or of one that speaks its protocol.
#[derive(Clone, Debug)]
pub struct S3Config {
    pub endpoint_url: String,
    pub access_key_id: Option<String>,
    pub secret_key: Option<String>,
    pub region: String,
    pub bucket_name: String,
    pub set_checksum: bool,
    pub use_path_style: bool,
    pub skip_tls: bool,
    pub imdsv1_fallback: bool,
    pub metadata_endpoint: Option<String>,
}

/// Marks a value that can be stored in the metastore as an object.
pub trait MetastoreObject {

}

impl S3Config {
    /// The address of the bucket: endpoint, `/`, bucket name.
    pub fn get_endpoint(&self) -> (endpoint: String)
        ensures
            endpoint@ == self.endpoint_url@ + "/"@ + self.bucket_name@,
    {
        let mut endpoint = self.endpoint_url.clone();
        endpoint.append("/");
        endpoint.append(self.bucket_name.as_str());
        endpoint
    }

    /// The name of the bucket.
    pub fn get_bucket_name(&self) -> (name: String)
        ensures
            name@ == self.bucket_name@,
    {
        self.bucket_name.clone()
    }

    /// The access key and the secret key, where both are set.
    pub fn credentials(&self) -> (pair: Option<(&String, &String)>)
        ensures
            match (self.access_key_id, self.secret_key) {
                (Some(access), Some(secret)) => pair == Some((&access, &secret)),
                _ => pair.is_none(),
            },
    {
        match (&self.access_key_id, &self.secret_key) {
            (Some(access), Some(secret)) => Some((access, secret)),
            _ => None,
        }
    }
}

} // verus!
