//! Locating the probe binary beside the encoder binary.

use vstd::prelude::*;

verus! {

/// Whether a path names a Windows executable.
pub open spec fn ends_exe_spec(s: Seq<char>) -> bool {
    s.len() >= 4 && s.subrange(s.len() - 4, s.len() as int) == ".exe"@
}

/// The directory part of a path, up to and including the last
/// separator; empty for a bare file name.
pub open spec fn dir_part_spec(s: Seq<char>) -> Seq<char> {
    let sl = crate::plan::find_last_below(s, '/', s.len() as int);
    if sl >= 0 {
        s.take(sl + 1)
    } else {
        Seq::<char>::empty()
    }
}

/// The probe binary's path: it sits beside the encoder binary, named
/// `ffprobe` (with the encoder's `.exe` suffix carried over).
pub open spec fn ffprobe_bin_spec(ffmpeg: Seq<char>) -> Seq<char> {
    dir_part_spec(ffmpeg) + (if ends_exe_spec(ffmpeg) {
        "ffprobe.exe"@
    } else {
        "ffprobe"@
    })
}

/// Derive the probe binary's path from the encoder binary's path.
pub fn ffprobe_bin(ffmpeg: &str) -> (r: String)
    ensures
        r@ == ffprobe_bin_spec(ffmpeg@),
{
    let n = ffmpeg.unicode_len();
    let ends_exe = if n >= 4 {
        let c0 = ffmpeg.get_char(n - 4);
        let c1 = ffmpeg.get_char(n - 3);
        let c2 = ffmpeg.get_char(n - 2);
        let c3 = ffmpeg.get_char(n - 1);
        let e = c0 == '.' && c1 == 'e' && c2 == 'x' && c3 == 'e';
        proof {
            reveal_strlit(".exe");
            let sub = ffmpeg@.subrange(n as int - 4, n as int);
            assert(sub[0] == ffmpeg@[n as int - 4]);
            assert(sub[1] == ffmpeg@[n as int - 3]);
            assert(sub[2] == ffmpeg@[n as int - 2]);
            assert(sub[3] == ffmpeg@[n as int - 1]);
            if e {
                assert(sub =~= ".exe"@);
            } else {
                assert(sub != ".exe"@);
            }
        }
        e
    } else {
        false
    };
    let dir: String = {
        let mut below: usize = n;
        let mut cut: usize = 0;
        let mut found = false;
        while below > 0 && !found
            invariant
                below <= n,
                n == ffmpeg@.len(),
                !found ==> crate::plan::find_last_below(ffmpeg@, '/', n as int)
                    == crate::plan::find_last_below(ffmpeg@, '/', below as int),
                found ==> crate::plan::find_last_below(ffmpeg@, '/', n as int) == cut as int
                    && cut < n,
            decreases below + (if found {
                0int
            } else {
                1int
            }),
        {
            if ffmpeg.get_char(below - 1) == '/' {
                cut = below - 1;
                found = true;
            } else {
                below = below - 1;
            }
        }
        if found {
            ffmpeg.substring_char(0, cut + 1).to_owned()
        } else {
            proof {
                assert(crate::plan::find_last_below(ffmpeg@, '/', below as int) == -1);
            }
            String::new()
        }
    };
    let r = dir.concat(
        if ends_exe {
            "ffprobe.exe"
        } else {
            "ffprobe"
        },
    );
    proof {
        assert(r@ =~= ffprobe_bin_spec(ffmpeg@));
    }
    r
}

} // verus!
