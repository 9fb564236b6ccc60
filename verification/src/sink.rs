//! The command lines the pipe sink tries, in order: the configured command,
//! then `SYN_AUDIO_CMD`, then `pw-cat`, then `aplay`, each split into words
//! with `{rate}` and `{channels}` filled in. Starting the processes is the
//! program's part.

use vstd::prelude::*;
use vstd::string::StringExecFns;
use crate::schema::texts;
use crate::text::{decimal_string, decimal_text, is_white, is_whitespace, trim, trim_bounds, to_chars};

verus! {

/// The words still to come of `s`, given the words already `done` and the
/// part `cur` of a word already read.
pub open spec fn words_from(s: Seq<char>, done: Seq<Seq<char>>, cur: Seq<char>) -> Seq<Seq<char>>
    decreases s.len(),
{
    let flushed = if cur.len() > 0 {
        done.push(cur)
    } else {
        done
    };
    if s.len() == 0 {
        flushed
    } else if is_white(s[0]) {
        words_from(s.drop_first(), flushed, seq![])
    } else {
        words_from(s.drop_first(), done, cur.push(s[0]))
    }
}

/// The words of `s` (`split_whitespace`): its maximal runs of characters
/// that are not white space, in order.
pub open spec fn words(s: Seq<char>) -> Seq<Seq<char>> {
    words_from(s, seq![], seq![])
}

/// `s` with every occurrence of `pat` replaced by `rep`, scanning left to
/// right without overlaps (`str::replace`).
pub open spec fn replace_all(s: Seq<char>, pat: Seq<char>, rep: Seq<char>) -> Seq<char>
    decreases s.len(),
{
    if pat.len() == 0 || s.len() < pat.len() {
        s
    } else if s.take(pat.len() as int) == pat {
        rep + replace_all(s.skip(pat.len() as int), pat, rep)
    } else {
        seq![s[0]] + replace_all(s.drop_first(), pat, rep)
    }
}

/// The words of `s`.
pub fn split_words(s: &str) -> (r: Vec<String>)
    ensures
        texts(r@) == words(s@),
{
    let chars = to_chars(s);
    let n = chars.len();
    let mut out: Vec<String> = Vec::new();
    let mut start: usize = 0;
    let mut in_word = false;
    let mut i: usize = 0;
    proof {
        assert(s@.skip(0) =~= s@);
        assert(texts(out@) =~= Seq::<Seq<char>>::empty());
        assert(s@.subrange(0, 0) =~= Seq::<char>::empty());
    }
    while i < n
        invariant
            chars@ == s@,
            n == s@.len(),
            i <= n,
            start <= i,
            !in_word ==> start == i,
            in_word ==> start < i,
            words(s@) == words_from(s@.skip(i as int), texts(out@), s@.subrange(start as int, i as int)),
        decreases n - i,
    {
        let ghost rest = s@.skip(i as int);
        let ghost cur = s@.subrange(start as int, i as int);
        assert(rest[0] == s@[i as int]);
        assert(rest.drop_first() =~= s@.skip(i + 1));
        if is_whitespace(chars[i]) {
            let ghost before = out@;
            if in_word {
                let w = String::from_str(s.substring_char(start, i));
                out.push(w);
                proof {
                    assert(texts(out@) =~= texts(before).push(cur));
                }
            } else {
                assert(cur.len() == 0);
            }
            proof {
                assert(s@.subrange(i + 1, i + 1) =~= Seq::<char>::empty());
            }
            in_word = false;
            start = i + 1;
        } else {
            if !in_word {
                in_word = true;
                start = i;
            }
            proof {
                assert(s@.subrange(start as int, i + 1) =~= s@.subrange(start as int, i as int).push(s@[i as int]));
            }
        }
        i = i + 1;
    }
    let ghost before = out@;
    proof {
        assert(s@.skip(n as int) =~= Seq::<char>::empty());
    }
    if in_word {
        let w = String::from_str(s.substring_char(start, n));
        out.push(w);
        proof {
            assert(texts(out@) =~= texts(before).push(s@.subrange(start as int, n as int)));
        }
    }
    out
}

/// `s` with every `pat` replaced by `rep`.
fn replace_str(s: &str, pat: &str, rep: &str) -> (r: String)
    requires
        pat@.len() > 0,
    ensures
        r@ == replace_all(s@, pat@, rep@),
{
    let chars = to_chars(s);
    let pchars = to_chars(pat);
    let n = chars.len();
    let m = pchars.len();
    let mut out = String::new();
    let mut i: usize = 0;
    proof {
        assert(s@.skip(0) =~= s@);
    }
    while i < n
        invariant
            chars@ == s@,
            pchars@ == pat@,
            n == s@.len(),
            m == pat@.len(),
            m > 0,
            i <= n,
            out@ + replace_all(s@.skip(i as int), pat@, rep@) == replace_all(s@, pat@, rep@),
        decreases n - i,
    {
        let ghost rest = s@.skip(i as int);
        if n - i < m {
            let tail = s.substring_char(i, n);
            proof {
                assert(tail@ =~= rest);
            }
            out = out.concat(tail);
            proof {
                assert(s@.skip(n as int) =~= Seq::<char>::empty());
                assert(replace_all(s@.skip(n as int), pat@, rep@) =~= Seq::<char>::empty());
                assert(out@ + Seq::<char>::empty() =~= out@);
            }
            i = n;
        } else if crate::text::match_at(chars.as_slice(), pchars.as_slice(), i) {
            proof {
                assert(rest.take(m as int) =~= s@.subrange(i as int, i + m));
                assert(rest.skip(m as int) =~= s@.skip(i + m));
                assert(out@ + (rep@ + replace_all(s@.skip(i + m), pat@, rep@)) =~= (out@ + rep@)
                    + replace_all(s@.skip(i + m), pat@, rep@));
            }
            out = out.concat(rep);
            i = i + m;
        } else {
            let one = s.substring_char(i, i + 1);
            proof {
                assert(rest.take(m as int) =~= s@.subrange(i as int, i + m));
                assert(one@ =~= seq![rest[0]]);
                assert(rest.drop_first() =~= s@.skip(i + 1));
                assert(out@ + (one@ + replace_all(s@.skip(i + 1), pat@, rep@)) =~= (out@ + one@)
                    + replace_all(s@.skip(i + 1), pat@, rep@));
            }
            out = out.concat(one);
            i = i + 1;
        }
    }
    proof {
        assert(s@.skip(i as int) =~= Seq::<char>::empty());
        assert(out@ + Seq::<char>::empty() =~= out@);
    }
    out
}

/// A word of a command line with `{rate}`, then `{channels}`, filled in.
pub open spec fn fill_in(w: Seq<char>, rate: nat, channels: nat) -> Seq<char> {
    replace_all(replace_all(w, "{rate}"@, decimal_text(rate)), "{channels}"@, decimal_text(channels))
}

/// The words of the PipeWire player's command line.
pub open spec fn pw_cat_words(rate: nat, channels: nat, latency: nat) -> Seq<Seq<char>> {
    seq![
        "pw-cat"@, "-p"@, "--format"@, "f32"@, "--rate"@, decimal_text(rate), "--channels"@,
        decimal_text(channels), "--latency"@, decimal_text(latency), "--raw"@, "-"@,
    ]
}

/// The words of the ALSA player's command line.
pub open spec fn aplay_words(rate: nat, channels: nat, latency: nat) -> Seq<Seq<char>> {
    seq![
        "aplay"@, "-q"@, "-t"@, "raw"@, "-f"@, "FLOAT_LE"@, "-c"@, decimal_text(channels), "-r"@,
        decimal_text(rate), "--period-size="@ + decimal_text(latency), "-"@,
    ]
}

/// The command lines to try, in order, before filling in: the configured
/// command when it is not blank, the environment's when there is one, then
/// `pw-cat` and `aplay`.
pub open spec fn raw_attempts(
    command: Seq<char>,
    custom: Option<Seq<char>>,
    rate: nat,
    channels: nat,
    latency: nat,
) -> Seq<Seq<Seq<char>>> {
    let a = if trim(command).len() > 0 {
        seq![words(command)]
    } else {
        seq![]
    };
    let b = match custom {
        Some(c) => a.push(words(c)),
        None => a,
    };
    b.push(pw_cat_words(rate, channels, latency)).push(aplay_words(rate, channels, latency))
}

/// The command lines to try, each word filled in.
pub open spec fn attempts(
    command: Seq<char>,
    custom: Option<Seq<char>>,
    rate: nat,
    channels: nat,
    latency: nat,
) -> Seq<Seq<Seq<char>>> {
    raw_attempts(command, custom, rate, channels, latency).map_values(
        |ws: Seq<Seq<char>>| ws.map_values(|w: Seq<char>| fill_in(w, rate, channels)),
    )
}

/// The text of each word of each command line.
pub open spec fn lines_text(v: Seq<Vec<String>>) -> Seq<Seq<Seq<char>>> {
    v.map_values(|ws: Vec<String>| texts(ws@))
}

fn fill_words(ws: &Vec<String>, rate: u32, channels: u16) -> (r: Vec<String>)
    ensures
        texts(r@) == texts(ws@).map_values(|w: Seq<char>| fill_in(w, rate as nat, channels as nat)),
{
    let rate_s = decimal_string(rate as usize);
    let ch_s = decimal_string(channels as usize);
    let mut out: Vec<String> = Vec::new();
    let mut i: usize = 0;
    proof {
        reveal_strlit("{rate}");
        reveal_strlit("{channels}");
    }
    while i < ws.len()
        invariant
            i <= ws@.len(),
            rate_s@ == decimal_text(rate as nat),
            ch_s@ == decimal_text(channels as nat),
            "{rate}"@.len() > 0,
            "{channels}"@.len() > 0,
            texts(out@) == texts(ws@).take(i as int).map_values(|w: Seq<char>| fill_in(w, rate as nat, channels as nat)),
        decreases ws@.len() - i,
    {
        let a = replace_str(ws[i].as_str(), "{rate}", rate_s.as_str());
        let b = replace_str(a.as_str(), "{channels}", ch_s.as_str());
        let ghost before = out@;
        out.push(b);
        proof {
            assert(texts(out@) =~= texts(before).push(b@));
            assert(texts(ws@).take(i + 1) =~= texts(ws@).take(i as int).push(ws@[i as int]@));
            assert(texts(ws@).take(i + 1).map_values(|w: Seq<char>| fill_in(w, rate as nat, channels as nat))
                =~= texts(ws@).take(i as int).map_values(|w: Seq<char>| fill_in(w, rate as nat, channels as nat)).push(
                fill_in(ws@[i as int]@, rate as nat, channels as nat)));
        }
        i = i + 1;
    }
    proof {
        assert(texts(ws@).take(ws@.len() as int) =~= texts(ws@));
    }
    out
}

fn words_of(list: &[&str]) -> (r: Vec<String>)
    ensures
        r@.len() == list@.len(),
        forall|i: int| 0 <= i < list@.len() ==> (#[trigger] r@[i])@ == list@[i]@,
{
    let mut out: Vec<String> = Vec::new();
    let mut i: usize = 0;
    while i < list.len()
        invariant
            i <= list@.len(),
            out@.len() == i,
            forall|j: int| 0 <= j < i ==> (#[trigger] out@[j])@ == list@[j]@,
        decreases list@.len() - i,
    {
        out.push(String::from_str(list[i]));
        i = i + 1;
    }
    out
}

/// The command lines the pipe sink tries, in order, each split into words
/// with `{rate}` and `{channels}` filled in. `custom` is `SYN_AUDIO_CMD`.
pub fn player_commands(
    command: &str,
    custom: Option<&str>,
    sample_rate: u32,
    channels: u16,
    latency_frames: u32,
) -> (r: Vec<Vec<String>>)
    ensures
        lines_text(r@) == attempts(
            command@,
            match custom {
                Some(c) => Some(c@),
                None => None,
            },
            sample_rate as nat,
            channels as nat,
            latency_frames as nat,
        ),
{
    let ghost custom_v: Option<Seq<char>> = match custom {
        Some(c) => Some(c@),
        None => None,
    };
    let ghost raw = raw_attempts(command@, custom_v, sample_rate as nat, channels as nat, latency_frames as nat);
    let mut lines: Vec<Vec<String>> = Vec::new();
    let cchars = to_chars(command);
    let (a, b) = trim_bounds(cchars.as_slice());
    if a < b {
        let ws = split_words(command);
        lines.push(ws);
        proof {
            assert(lines_text(lines@) =~= seq![words(command@)]);
        }
    } else {
        proof {
            assert(lines_text(lines@) =~= Seq::<Seq<Seq<char>>>::empty());
        }
    }
    let ghost first = lines_text(lines@);
    assert(first == if trim(command@).len() > 0 {
        seq![words(command@)]
    } else {
        Seq::<Seq<Seq<char>>>::empty()
    });
    match custom {
        Some(c) => {
            let ws = split_words(c);
            lines.push(ws);
            proof {
                assert(lines_text(lines@) =~= first.push(words(c@)));
            }
        },
        None => {},
    }
    let ghost second = lines_text(lines@);
    let rate_s = decimal_string(sample_rate as usize);
    let ch_s = decimal_string(channels as usize);
    let lat_s = decimal_string(latency_frames as usize);
    let period = String::from_str("--period-size=").concat(lat_s.as_str());
    let pw = words_of(
        &[
            "pw-cat", "-p", "--format", "f32", "--rate", rate_s.as_str(), "--channels", ch_s.as_str(), "--latency",
            lat_s.as_str(), "--raw", "-",
        ],
    );
    let ap = words_of(
        &["aplay", "-q", "-t", "raw", "-f", "FLOAT_LE", "-c", ch_s.as_str(), "-r", rate_s.as_str(), period.as_str(), "-"],
    );
    proof {
        assert(texts(pw@) =~= pw_cat_words(sample_rate as nat, channels as nat, latency_frames as nat));
        assert(texts(ap@) =~= aplay_words(sample_rate as nat, channels as nat, latency_frames as nat));
    }
    lines.push(pw);
    lines.push(ap);
    proof {
        assert(lines_text(lines@) =~= second.push(texts(pw@)).push(texts(ap@)));
        assert(lines_text(lines@) =~= raw);
    }
    let mut out: Vec<Vec<String>> = Vec::new();
    let mut i: usize = 0;
    while i < lines.len()
        invariant
            i <= lines@.len(),
            lines_text(lines@) == raw,
            lines_text(out@) == raw.take(i as int).map_values(
                |ws: Seq<Seq<char>>| ws.map_values(|w: Seq<char>| fill_in(w, sample_rate as nat, channels as nat)),
            ),
        decreases lines@.len() - i,
    {
        let filled = fill_words(&lines[i], sample_rate, channels);
        let ghost before = out@;
        out.push(filled);
        proof {
            assert(lines_text(out@) =~= lines_text(before).push(texts(filled@)));
            assert(raw[i as int] == texts(lines@[i as int]@));
            assert(raw.take(i + 1) =~= raw.take(i as int).push(raw[i as int]));
            assert(raw.take(i + 1).map_values(
                |ws: Seq<Seq<char>>| ws.map_values(|w: Seq<char>| fill_in(w, sample_rate as nat, channels as nat)),
            ) =~= raw.take(i as int).map_values(
                |ws: Seq<Seq<char>>| ws.map_values(|w: Seq<char>| fill_in(w, sample_rate as nat, channels as nat)),
            ).push(raw[i as int].map_values(|w: Seq<char>| fill_in(w, sample_rate as nat, channels as nat))));
        }
        i = i + 1;
    }
    proof {
        assert(raw.take(raw.len() as int) =~= raw);
    }
    out
}

} // verus!
