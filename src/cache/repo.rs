use crate::text::same_text;
use sha2::{Digest, Sha256};
use vstd::prelude::*;
use vstd::string::StringSliceAdditionalSpecFns;

verus! {

/// A template repository that has been cloned into the cache, and the name of
/// its directory there.
pub struct Repo {
    pub link: String,
    pub branch: String,
    pub hash: String,
}

/// The index of the cached template repositories.
pub struct RepoCache {
    pub repos: Vec<Repo>,
}

/// The SHA-256 digest of `data`.
pub uninterp spec fn sha256_of(data: Seq<u8>) -> Seq<u8>;

/// Relies on sha2's `Sha256::digest`: the 32-byte SHA-256 digest of the input,
/// which depends on the input alone.
#[verifier::external_body]
fn sha256(data: &[u8]) -> (r: Vec<u8>)
    ensures
        r@ == sha256_of(data@),
        r@.len() == 32,
{
    Sha256::digest(data).to_vec()
}

/// The lowercase hexadecimal digit for `d` below 16.
pub open spec fn hex_digit(d: nat) -> char {
    seq!['0', '1', '2', '3', '4', '5', '6', '7', '8', '9', 'a', 'b', 'c', 'd', 'e', 'f'][d as int]
}

/// Each byte of `b` as two lowercase hexadecimal digits, high half first.
pub open spec fn hex_text(b: Seq<u8>) -> Seq<char>
    decreases b.len(),
{
    if b.len() == 0 {
        Seq::empty()
    } else {
        hex_text(b.drop_last()) + seq![
            hex_digit((b.last() / 16) as nat),
            hex_digit((b.last() % 16) as nat),
        ]
    }
}

/// Relies on `hex::encode`: two lowercase hexadecimal digits per byte, in order.
#[verifier::external_body]
fn hex_encode(b: &[u8]) -> (r: String)
    ensures
        r@ == hex_text(b@),
{
    hex::encode(b)
}

/// The bytes of the link followed by those of the branch.
pub open spec fn repo_key(link: &str, branch: &str) -> Seq<u8> {
    link.spec_bytes() + branch.spec_bytes()
}

impl RepoCache {
    pub fn new() -> (r: RepoCache)
        ensures
            r.repos@.len() == 0,
    {
        RepoCache { repos: Vec::new() }
    }

    /// Whether a repository with this link and branch is in the cache.
    pub fn contains(&self, repo: &str, branch: &String) -> (r: bool)
        ensures
            r == exists|i: int|
                0 <= i < self.repos@.len() && #[trigger] self.repos@[i].link@ == repo@
                    && self.repos@[i].branch@ == branch@,
    {
        let n = self.repos.len();
        let mut i: usize = 0;
        while i < n
            invariant
                n == self.repos@.len(),
                i <= n,
                forall|k: int|
                    0 <= k < i ==> !(#[trigger] self.repos@[k].link@ == repo@
                        && self.repos@[k].branch@ == branch@),
            decreases n - i,
        {
            let repo_obj = &self.repos[i];
            if same_text(repo_obj.link.as_str(), repo) && same_text(
                repo_obj.branch.as_str(),
                branch.as_str(),
            ) {
                return true;
            }
            i = i + 1;
        }
        false
    }

    /// The name of the cache directory of a repository: the SHA-256 digest of
    /// its link followed by its branch, in lowercase hexadecimal.
    pub fn repo_hash(repo: &str, branch: &str) -> (r: String)
        ensures
            r@ == hex_text(sha256_of(repo_key(repo, branch))),
    {
        let a = repo.as_bytes();
        let b = branch.as_bytes();
        let mut key: Vec<u8> = Vec::new();
        let mut i: usize = 0;
        while i < a.len()
            invariant
                a@ == repo.spec_bytes(),
                i <= a@.len(),
                key@ == a@.subrange(0, i as int),
            decreases a@.len() - i,
        {
            key.push(a[i]);
            assert(key@ =~= a@.subrange(0, i as int + 1));
            i = i + 1;
        }
        let mut j: usize = 0;
        while j < b.len()
            invariant
                a@ == repo.spec_bytes(),
                b@ == branch.spec_bytes(),
                j <= b@.len(),
                key@ == a@ + b@.subrange(0, j as int),
            decreases b@.len() - j,
        {
            key.push(b[j]);
            assert(key@ =~= a@ + b@.subrange(0, j as int + 1));
            j = j + 1;
        }
        assert(key@ =~= repo_key(repo, branch));
        let digest = sha256(key.as_slice());
        hex_encode(digest.as_slice())
    }

    /// Records a repository that has just been cloned.
    pub fn record_clone(&mut self, link: String, branch: String, hash: String)
        ensures
            final(self).repos@.len() == old(self).repos@.len() + 1,
            forall|i: int|
                0 <= i < old(self).repos@.len() ==> #[trigger] final(self).repos@[i] == old(
                    self,
                ).repos@[i],
            final(self).repos@.last().link@ == link@,
            final(self).repos@.last().branch@ == branch@,
            final(self).repos@.last().hash@ == hash@,
    {
        self.repos.push(Repo { link, branch, hash });
    }
}

} // verus!
