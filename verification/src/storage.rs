//! The object-store handle and the key and URL conventions of audio
//! blobs.

use vstd::prelude::*;
use vstd::string::StringExecFns;

verus! {

#[verifier::external_type_specification]
#[verifier::external_body]
pub struct ExS3Client(aws_sdk_s3::Client);

/// Relies on `aws_sdk_s3::Client` being `Clone`: a client handle can be
/// shared; nothing is claimed of the copy.
pub assume_specification[ <aws_sdk_s3::Client as Clone>::clone ](
    c: &aws_sdk_s3::Client,
) -> aws_sdk_s3::Client;

/// The object store: the client handle and the names that keys and
/// public URLs are derived from.
pub struct S3 {
    pub client: aws_sdk_s3::Client,
    pub bucket: String,
    pub full_link: String,
    pub temp_dir: String,
}

impl Clone for S3 {
    fn clone(&self) -> (r: Self)
        ensures
            r.bucket == self.bucket,
            r.full_link == self.full_link,
            r.temp_dir == self.temp_dir,
    {
        S3 {
            client: self.client.clone(),
            bucket: self.bucket.clone(),
            full_link: self.full_link.clone(),
            temp_dir: self.temp_dir.clone(),
        }
    }
}

/// The object-store key of an episode's audio blob.
pub open spec fn spec_object_key(ep_id: Seq<char>) -> Seq<char> {
    ep_id + ".mp3"@
}

/// Derives the object-store key for an episode id.
pub fn object_key(ep_id: &str) -> (r: String)
    ensures
        r@ == spec_object_key(ep_id@),
{
    let mut out = String::from_str(ep_id);
    out.append(".mp3");
    out
}

/// The public URL an episode's audio is served from.
pub open spec fn spec_enclosure_url(full_link: Seq<char>, ep_id: Seq<char>) -> Seq<char> {
    full_link + "/"@ + ep_id + ".mp3"@
}

/// Derives the public URL for an episode's audio blob.
pub fn enclosure_url(full_link: &str, ep_id: &str) -> (r: String)
    ensures
        r@ == spec_enclosure_url(full_link@, ep_id@),
{
    let mut out = String::from_str(full_link);
    out.append("/");
    out.append(ep_id);
    out.append(".mp3");
    out
}

} // verus!
