//! Watch-trigger job synthesis: deciding which job, if any, a newly created
//! file should enqueue, and where its render output goes.

use vstd::prelude::*;

use crate::queue::{opt_view, Job, JobView};
use crate::text::{chars_string, str_chars};

verus! {

/// Lowercases one ASCII letter; every other character is unchanged.
pub open spec fn lower_char(c: char) -> char {
    match c {
        'A' => 'a',
        'B' => 'b',
        'C' => 'c',
        'D' => 'd',
        'E' => 'e',
        'F' => 'f',
        'G' => 'g',
        'H' => 'h',
        'I' => 'i',
        'J' => 'j',
        'K' => 'k',
        'L' => 'l',
        'M' => 'm',
        'N' => 'n',
        'O' => 'o',
        'P' => 'p',
        'Q' => 'q',
        'R' => 'r',
        'S' => 's',
        'T' => 't',
        'U' => 'u',
        'V' => 'v',
        'W' => 'w',
        'X' => 'x',
        'Y' => 'y',
        'Z' => 'z',
        _ => c,
    }
}

/// The ASCII lowercasing of a character sequence.
pub open spec fn lower(s: Seq<char>) -> Seq<char> {
    s.map_values(|c: char| lower_char(c))
}

/// The index of the last occurrence of `c` in `s`, or `-1`.
pub open spec fn last_pos(s: Seq<char>, c: char) -> int
    decreases s.len(),
{
    if s.len() == 0 {
        -1
    } else if s[s.len() - 1] == c {
        s.len() - 1
    } else {
        last_pos(s.drop_last(), c)
    }
}

proof fn lemma_last_pos_range(s: Seq<char>, c: char)
    ensures
        -1 <= last_pos(s, c) < s.len(),
    decreases s.len(),
{
    if s.len() > 0 && s[s.len() - 1] != c {
        lemma_last_pos_range(s.drop_last(), c);
    }
}

/// The final path component: everything after the last slash.
pub open spec fn file_name_of(path: Seq<char>) -> Seq<char> {
    path.skip(last_pos(path, '/') + 1)
}

/// The extension: what follows the last dot of the file name, provided that
/// dot is not the name's first character.
pub open spec fn extension_of(path: Seq<char>) -> Option<Seq<char>> {
    let name = file_name_of(path);
    let d = last_pos(name, '.');
    if d > 0 {
        Some(name.skip(d + 1))
    } else {
        None
    }
}

/// The audio extensions the directory watch reacts to, case-insensitively.
pub open spec fn is_audio_ext(e: Seq<char>) -> bool {
    ||| lower(e) == "mp3"@
    ||| lower(e) == "wav"@
    ||| lower(e) == "m4a"@
    ||| lower(e) == "flac"@
    ||| lower(e) == "aac"@
}

/// Whether a created file at `path` should be enqueued.
pub open spec fn audio_file(path: Seq<char>) -> bool {
    match extension_of(path) {
        Some(e) => is_audio_ext(e),
        None => false,
    }
}

/// The render destination: the path with its extension replaced by `mp4`.
pub open spec fn dest_for(path: Seq<char>) -> Seq<char>
    recommends
        audio_file(path),
{
    let ls = last_pos(path, '/');
    let d = last_pos(path.skip(ls + 1), '.');
    path.take(ls + 1 + d) + ".mp4"@
}

/// The job planned for an audio file at `path`: render to `dest_for(path)`,
/// and publish as well when `auto_upload` is set.
pub open spec fn planned_job(
    path: Seq<char>,
    payload: Seq<char>,
    auto_upload: bool,
    thumbnail: Option<Seq<char>>,
) -> JobView
    recommends
        audio_file(path),
{
    if auto_upload {
        JobView::GenerateUpload { params: payload, dest: dest_for(path), thumbnail }
    } else {
        JobView::Generate { params: payload, dest: dest_for(path) }
    }
}

fn lower_char_x(c: char) -> (r: char)
    ensures
        r == lower_char(c),
{
    match c {
        'A' => 'a',
        'B' => 'b',
        'C' => 'c',
        'D' => 'd',
        'E' => 'e',
        'F' => 'f',
        'G' => 'g',
        'H' => 'h',
        'I' => 'i',
        'J' => 'j',
        'K' => 'k',
        'L' => 'l',
        'M' => 'm',
        'N' => 'n',
        'O' => 'o',
        'P' => 'p',
        'Q' => 'q',
        'R' => 'r',
        'S' => 's',
        'T' => 't',
        'U' => 'u',
        'V' => 'v',
        'W' => 'w',
        'X' => 'x',
        'Y' => 'y',
        'Z' => 'z',
        _ => c,
    }
}

/// The index of the last occurrence of `c` in `v`, scanning from the end.
fn last_pos_x(v: &Vec<char>, c: char) -> (r: Option<usize>)
    ensures
        match r {
            Some(k) => last_pos(v@, c) == k && k < v.len(),
            None => last_pos(v@, c) == -1,
        },
{
    proof {
        assert(v@.take(v.len() as int) =~= v@);
    }
    let mut k = v.len();
    while k > 0
        invariant
            k <= v.len(),
            last_pos(v@, c) == last_pos(v@.take(k as int), c),
        decreases k,
    {
        if v[k - 1] == c {
            proof {
                assert(v@.take(k as int)[k - 1] == v@[k - 1 as int]);
                lemma_last_pos_range(v@, c);
            }
            return Some(k - 1);
        }
        proof {
            assert(v@.take(k as int)[k - 1] == v@[k - 1 as int]);
            assert(v@.take(k as int).drop_last() =~= v@.take(k - 1 as int));
        }
        k -= 1;
    }
    proof {
        assert(v@.take(0int).len() == 0);
    }
    None
}

pub(crate) fn string_eq_lit(s: &String, lit: &str) -> (r: bool)
    ensures
        r == (s@ == lit@),
{
    let other = String::from_str(lit);
    s.eq(&other)
}

/// The lowercased extension of `path`, if it has one.
pub fn extension_lowered(path: &str) -> (r: Option<String>)
    ensures
        match r {
            Some(e) => extension_of(path@) matches Some(x) && e@ == lower(x),
            None => extension_of(path@) is None,
        },
{
    let chars = str_chars(path);
    let ls: usize = match last_pos_x(&chars, '/') {
        Some(k) => k + 1,
        None => 0,
    };
    proof {
        assert(ls as int == last_pos(path@, '/') + 1);
    }
    let n = chars.len();
    let mut name: Vec<char> = Vec::new();
    let mut i = ls;
    while i < n
        invariant
            ls <= i <= n,
            n == chars.len(),
            chars@ == path@,
            name@ =~= path@.skip(ls as int).take((i - ls) as int),
        decreases n - i,
    {
        name.push(chars[i]);
        proof {
            assert(path@.skip(ls as int)[(i - ls) as int] == path@[i as int]);
            assert(name@ =~= path@.skip(ls as int).take((i + 1 - ls) as int));
        }
        i += 1;
    }
    proof {
        assert(path@.skip(ls as int).take((n - ls) as int) =~= path@.skip(ls as int));
        assert(name@ =~= file_name_of(path@));
    }
    let d = match last_pos_x(&name, '.') {
        Some(k) => k,
        None => {
            return None;
        },
    };
    if d == 0 {
        return None;
    }
    let m = name.len();
    let mut ext: Vec<char> = Vec::new();
    let mut i2 = d + 1;
    while i2 < m
        invariant
            d + 1 <= i2 <= m,
            m == name.len(),
            ext@ =~= lower(name@.skip((d + 1) as int).take((i2 - (d + 1)) as int)),
        decreases m - i2,
    {
        let c = name[i2];
        let lc = lower_char_x(c);
        let ghost prefix = name@.skip((d + 1) as int).take((i2 - (d + 1)) as int);
        ext.push(lc);
        proof {
            assert(prefix.push(c) =~= name@.skip((d + 1) as int).take((i2 + 1 - (d + 1)) as int));
            assert(lower(prefix.push(c)) =~= lower(prefix).push(lower_char(c)));
            assert(ext@ =~= lower(name@.skip((d + 1) as int).take((i2 + 1 - (d + 1)) as int)));
        }
        i2 += 1;
    }
    proof {
        assert(name@.skip((d + 1) as int).take((m - (d + 1)) as int) =~= name@.skip(
            (d + 1) as int,
        ));
        assert(ext@ =~= lower(name@.skip((d + 1) as int)));
    }
    Some(chars_string(&ext))
}

/// Decides the job a newly created file should enqueue. The watch options
/// are already folded into the opaque render payload; this function only
/// decides whether the file is watched audio, derives the destination, and
/// picks the job variant. `None` means the file is left alone.
pub fn plan_watch_job(
    path: &str,
    payload: String,
    auto_upload: bool,
    thumbnail: Option<String>,
) -> (r: Option<Job>)
    ensures
        (r is Some) <==> audio_file(path@),
        r matches Some(job) ==> job@ == planned_job(
            path@,
            payload@,
            auto_upload,
            opt_view(thumbnail),
        ),
{
    let chars = str_chars(path);
    let ls: usize = match last_pos_x(&chars, '/') {
        Some(k) => k + 1,
        None => 0,
    };
    proof {
        assert(ls as int == last_pos(path@, '/') + 1);
    }
    let n = chars.len();
    let mut name: Vec<char> = Vec::new();
    let mut i = ls;
    while i < n
        invariant
            ls <= i <= n,
            n == chars.len(),
            chars@ == path@,
            name@ =~= path@.skip(ls as int).take((i - ls) as int),
        decreases n - i,
    {
        name.push(chars[i]);
        proof {
            assert(path@.skip(ls as int)[(i - ls) as int] == path@[i as int]);
            assert(name@ =~= path@.skip(ls as int).take((i + 1 - ls) as int));
        }
        i += 1;
    }
    proof {
        assert(path@.skip(ls as int).take((n - ls) as int) =~= path@.skip(ls as int));
        assert(name@ =~= file_name_of(path@));
    }
    let d = match last_pos_x(&name, '.') {
        Some(k) => k,
        None => {
            return None;
        },
    };
    if d == 0 {
        return None;
    }
    let m = name.len();
    let mut ext: Vec<char> = Vec::new();
    let mut i2 = d + 1;
    while i2 < m
        invariant
            d + 1 <= i2 <= m,
            m == name.len(),
            ext@ =~= lower(name@.skip((d + 1) as int).take((i2 - (d + 1)) as int)),
        decreases m - i2,
    {
        let c = name[i2];
        let lc = lower_char_x(c);
        let ghost prefix = name@.skip((d + 1) as int).take((i2 - (d + 1)) as int);
        ext.push(lc);
        proof {
            assert(prefix.push(c) =~= name@.skip((d + 1) as int).take((i2 + 1 - (d + 1)) as int));
            assert(lower(prefix.push(c)) =~= lower(prefix).push(lower_char(c)));
            assert(ext@ =~= lower(name@.skip((d + 1) as int).take((i2 + 1 - (d + 1)) as int)));
        }
        i2 += 1;
    }
    proof {
        assert(name@.skip((d + 1) as int).take((m - (d + 1)) as int) =~= name@.skip(
            (d + 1) as int,
        ));
        assert(ext@ =~= lower(name@.skip((d + 1) as int)));
    }
    let exts = chars_string(&ext);
    let watched = string_eq_lit(&exts, "mp3") || string_eq_lit(&exts, "wav") || string_eq_lit(
        &exts,
        "m4a",
    ) || string_eq_lit(&exts, "flac") || string_eq_lit(&exts, "aac");
    if !watched {
        return None;
    }
    let cut = ls + d;
    let mut destv: Vec<char> = Vec::new();
    let mut i3: usize = 0;
    while i3 < cut
        invariant
            i3 <= cut,
            cut <= chars.len(),
            chars@ == path@,
            destv@ =~= path@.take(i3 as int),
        decreases cut - i3,
    {
        destv.push(chars[i3]);
        proof {
            assert(destv@ =~= path@.take(i3 + 1 as int));
        }
        i3 += 1;
    }
    let mut dest = chars_string(&destv);
    dest.append(".mp4");
    proof {
        assert(dest@ =~= dest_for(path@));
    }
    if auto_upload {
        Some(Job::GenerateUpload { params: payload, dest, thumbnail })
    } else {
        Some(Job::Generate { params: payload, dest })
    }
}

} // verus!
