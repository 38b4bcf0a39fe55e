//! Stored files and their metadata projections.

use vstd::prelude::*;
use crate::core_types::{Id, Timestamp, now_ts};
use crate::textform::{dec_seq, push_char, u64_string};
use vstd::string::StringExecFns;

verus! {

/// A stored file.
#[derive(Debug, Clone)]
pub struct File {
    pub id: Id,
    pub owner_id: Id,
    pub filename: String,
    pub original_filename: String,
    pub content_type: String,
    pub size: i64,
    pub storage_path: String,
    pub checksum: String,
    pub is_public: bool,
    pub download_count: i64,
    pub created_at: Timestamp,
    pub updated_at: Timestamp,
    pub expires_at: Option<Timestamp>,
}

/// The unit suffix for sizes scaled down `k` times by 1024.
pub open spec fn size_unit(k: int) -> Seq<char> {
    if k == 0 {
        "B"@
    } else if k == 1 {
        "KB"@
    } else if k == 2 {
        "MB"@
    } else if k == 3 {
        "GB"@
    } else {
        "TB"@
    }
}

/// How many times a non-negative size is scaled down by 1024 before it
/// drops below 1024, capped at the terabyte unit.
pub open spec fn size_scale(v: int, k: int) -> int
    decreases 4 - k,
{
    if k >= 4 || v < 1024 {
        k
    } else {
        size_scale(v / 1024, k + 1)
    }
}

/// `v` scaled down `k` times by 1024, in hundredths, rounded half up.
pub open spec fn scaled_hundredths(v: int, k: int) -> int
    decreases k,
{
    if k <= 0 {
        v * 100
    } else {
        (scaled_hundredths(v, k - 1) + 512) / 1024
    }
}

/// The human-readable rendering of a size in hundredths: whole part, a
/// point, two decimal digits, a space and the unit.
pub open spec fn human_size_chars(h: int, k: int) -> Seq<char> {
    dec_seq((h / 100) as nat) + seq![
        '.',
        crate::textform::hex_digit((h % 100 / 10) as u8),
        crate::textform::hex_digit((h % 10) as u8),
        ' ',
    ] + size_unit(k)
}

impl File {
    /// Whether the file has expired by time `now`.
    pub open spec fn spec_expired_at(self, now: int) -> bool {
        match self.expires_at {
            Some(e) => now > e,
            None => false,
        }
    }

    /// Whether the file has expired at the given instant.
    pub fn is_expired_at(&self, now: Timestamp) -> (r: bool)
        ensures
            r == self.spec_expired_at(now as int),
    {
        match self.expires_at {
            Some(e) => now > e,
            None => false,
        }
    }

    /// Whether the file has expired against the wall clock; the result
    /// holds for whatever instant the clock returned.
    pub fn is_expired(&self) -> (r: bool)
        ensures
            exists|now: int| r == self.spec_expired_at(now),
    {
        let now = now_ts();
        let r = self.is_expired_at(now);
        proof {
            assert(r == self.spec_expired_at(now as int));
        }
        r
    }

    /// Counts one more download.
    pub fn increment_download_count(&mut self)
        requires
            old(self).download_count < i64::MAX,
        ensures
            final (self).download_count == old(self).download_count + 1,
            final (self).id == old(self).id,
            final (self).is_public == old(self).is_public,
            final (self).filename == old(self).filename,
    {
        self.download_count = self.download_count + 1;
        self.updated_at = now_ts();
    }

    /// Opens the file to everyone.
    pub fn make_public(&mut self)
        ensures
            final (self).is_public,
            final (self).download_count == old(self).download_count,
            final (self).filename == old(self).filename,
    {
        self.is_public = true;
        self.updated_at = now_ts();
    }

    /// Restricts the file to its owner.
    pub fn make_private(&mut self)
        ensures
            !final (self).is_public,
            final (self).download_count == old(self).download_count,
            final (self).filename == old(self).filename,
    {
        self.is_public = false;
        self.updated_at = now_ts();
    }

    /// Sets or clears the expiry instant.
    pub fn set_expiration(&mut self, expires_at: Option<Timestamp>)
        ensures
            final (self).expires_at == expires_at,
            final (self).is_public == old(self).is_public,
            final (self).download_count == old(self).download_count,
    {
        self.expires_at = expires_at;
        self.updated_at = now_ts();
    }

    /// The size scaled into the largest unit that keeps it below 1024,
    /// with two decimals, such as `1.50 KB`. Sizes below zero read as zero
    /// bytes.
    pub fn human_readable_size(&self) -> (r: String)
        ensures
            ({
                let v = if self.size < 0 {
                    0int
                } else {
                    self.size as int
                };
                let k = size_scale(v, 0);
                r@ == human_size_chars(scaled_hundredths(v, k), k)
            }),
    {
        let v0: u64 = if self.size < 0 {
            0
        } else {
            self.size as u64
        };
        let ghost vi = v0 as int;
        let mut v = v0;
        let mut k: u32 = 0;
        while k < 4 && v >= 1024
            invariant
                0 <= k <= 4,
                size_scale(vi, 0) == size_scale(v as int, k as int),
                k == 0 ==> v == v0,
            decreases 4 - k,
        {
            proof {
                assert(size_scale(v as int, k as int) == size_scale(
                    v as int / 1024,
                    k as int + 1,
                ));
            }
            v = v / 1024;
            k = k + 1;
        }
        proof {
            assert(size_scale(vi, 0) == k as int);
        }
        let h = self.compute_hundredths(v0, k);
        let whole = u64_string(h / 100);
        let mut s = whole;
        push_char(&mut s, '.');
        push_char(&mut s, crate::textform::hex_digit_char(((h % 100) / 10) as u8));
        push_char(&mut s, crate::textform::hex_digit_char((h % 10) as u8));
        push_char(&mut s, ' ');
        let unit = self.unit_str(k);
        let r = s.concat(unit);
        proof {
            assert(r@ =~= human_size_chars(scaled_hundredths(vi, k as int), k as int));
        }
        r
    }

    /// The size in hundredths of the chosen unit, rounded half up at each
    /// scaling step.
    fn compute_hundredths(&self, v: u64, k: u32) -> (r: u64)
        requires
            k <= 4,
            k == 0 ==> v < 1024,
        ensures
            r as int == scaled_hundredths(v as int, k as int),
    {
        let mut h: u128 = (v as u128) * 100;
        let mut i: u32 = 0;
        proof {
            assert(h as int == scaled_hundredths(v as int, 0));
        }
        while i < k
            invariant
                0 <= i <= k <= 4,
                h as int == scaled_hundredths(v as int, i as int),
                i >= 1 ==> h <= ((v as u128) * 100 + 512) / 1024,
            decreases k - i,
        {
            h = (h + 512) / 1024;
            i = i + 1;
        }
        proof {
            if k == 0 {
                assert(h < 102400);
            } else {
                assert(h <= ((v as u128) * 100 + 512) / 1024);
            }
            assert(h <= u64::MAX as u128);
        }
        h as u64
    }

    /// The unit suffix for scale `k`.
    fn unit_str(&self, k: u32) -> (r: &'static str)
        ensures
            r@ == size_unit(k as int),
    {
        if k == 0 {
            "B"
        } else if k == 1 {
            "KB"
        } else if k == 2 {
            "MB"
        } else if k == 3 {
            "GB"
        } else {
            "TB"
        }
    }
}

/// A request to register a file.
#[derive(Debug, Clone)]
pub struct CreateFileRequest {
    pub filename: String,
    pub content_type: String,
    pub size: i64,
    pub is_public: Option<bool>,
    pub expires_at: Option<Timestamp>,
}

/// A request to change a file's listing.
#[derive(Debug, Clone)]
pub struct UpdateFileRequest {
    pub filename: Option<String>,
    pub is_public: Option<bool>,
    pub expires_at: Option<Timestamp>,
}

/// A file as presented in listings.
#[derive(Debug, Clone)]
pub struct FileMetadata {
    pub id: Id,
    pub filename: String,
    pub original_filename: String,
    pub content_type: String,
    pub size: i64,
    pub is_public: bool,
    pub download_count: i64,
    pub created_at: Timestamp,
    pub expires_at: Option<Timestamp>,
    pub owner: FileOwner,
}

/// The owner, as presented alongside a file.
#[derive(Debug, Clone)]
pub struct FileOwner {
    pub id: Id,
    pub username: String,
    pub full_name: String,
}

} // verus!
