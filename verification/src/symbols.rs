//! Symbol classifier: which characters open a pictographic cluster, and
//! which pictographic clusters the transport's repertoire accepts unchanged.

use vstd::prelude::*;
use crate::text::to_chars;

verus! {

/// Whether a non-ASCII character carries the Unicode `Emoji_Presentation`
/// or `Extended_Pictographic` property.
pub uninterp spec fn pictographic_property(c: char) -> bool;

/// A pictographic base character: one carrying `Emoji_Presentation` or
/// `Extended_Pictographic`. No ASCII character carries either property.
pub open spec fn is_pictographic(c: char) -> bool {
    c as u32 >= 128 && pictographic_property(c)
}

/// A combining mark that may close a pictographic cluster: the variation
/// selector or the combining enclosing keycap.
pub open spec fn is_cluster_mark(c: char) -> bool {
    c == '\u{FE0F}' || c == '\u{20E3}'
}

/// Relies on `regex::Regex::is_match` over the one-character class
/// `[\p{Emoji_Presentation}\p{Extended_Pictographic}]`, and on `Regex::new`,
/// which accepts this fixed, valid pattern: a single character matches
/// exactly when it carries one of the two properties, and no ASCII
/// character carries either.
#[verifier::external_body]
pub fn pictographic_char(c: char) -> (r: bool)
    ensures
        r == (c as u32 >= 128 && pictographic_property(c)),
{
    let mut buf = [0u8; 4];
    let pattern = regex::Regex::new(r"[\p{Emoji_Presentation}\p{Extended_Pictographic}]").unwrap();
    pattern.is_match(c.encode_utf8(&mut buf))
}

/// Decides `is_cluster_mark`.
pub fn cluster_mark(c: char) -> (r: bool)
    ensures
        r == is_cluster_mark(c),
{
    c == '\u{FE0F}' || c == '\u{20E3}'
}

/// The transport's immutable allow-list: the pictographic base characters
/// it renders correctly. Everything else is replaced before sending.
pub open spec fn allowed_base(c: char) -> bool {
    match c {
        '\u{00A9}' | '\u{00AE}' | '\u{203C}' | '\u{2049}' | '\u{2122}' | '\u{2139}' => true,
        '\u{2194}' | '\u{2195}' | '\u{2196}' | '\u{2197}' | '\u{2198}' | '\u{2199}' => true,
        '\u{21A9}' | '\u{21AA}' | '\u{231A}' | '\u{231B}' | '\u{2328}' | '\u{23CF}' => true,
        '\u{23E9}' | '\u{23EA}' | '\u{23EB}' | '\u{23EC}' | '\u{23ED}' | '\u{23EE}' => true,
        '\u{23EF}' | '\u{23F0}' | '\u{23F1}' | '\u{23F2}' | '\u{23F3}' | '\u{23F8}' => true,
        '\u{23F9}' | '\u{23FA}' | '\u{24C2}' | '\u{25AA}' | '\u{25AB}' | '\u{25B6}' => true,
        '\u{25C0}' | '\u{25FB}' | '\u{25FC}' | '\u{25FD}' | '\u{25FE}' | '\u{2600}' => true,
        '\u{2601}' | '\u{2602}' | '\u{2603}' | '\u{2604}' | '\u{260E}' | '\u{2611}' => true,
        '\u{2614}' | '\u{2615}' | '\u{2618}' | '\u{261D}' | '\u{2620}' | '\u{2622}' => true,
        '\u{2623}' | '\u{2626}' | '\u{262A}' | '\u{262E}' | '\u{262F}' | '\u{2638}' => true,
        '\u{2639}' | '\u{263A}' | '\u{2640}' | '\u{2642}' | '\u{2648}' | '\u{2649}' => true,
        '\u{264A}' | '\u{264B}' | '\u{264C}' | '\u{264D}' | '\u{264E}' | '\u{264F}' => true,
        '\u{2650}' | '\u{2651}' | '\u{2652}' | '\u{2653}' | '\u{265F}' | '\u{2660}' => true,
        '\u{2663}' | '\u{2665}' | '\u{2666}' | '\u{2668}' | '\u{267B}' | '\u{267E}' => true,
        '\u{267F}' | '\u{2692}' | '\u{2693}' | '\u{2694}' | '\u{2695}' | '\u{2696}' => true,
        '\u{2697}' | '\u{2699}' | '\u{269B}' | '\u{269C}' | '\u{26A0}' | '\u{26A1}' => true,
        '\u{26A7}' | '\u{26AA}' | '\u{26AB}' | '\u{26B0}' | '\u{26B1}' | '\u{26BD}' => true,
        '\u{26BE}' | '\u{26C4}' | '\u{26C5}' | '\u{26C8}' | '\u{26CE}' | '\u{26CF}' => true,
        '\u{26D1}' | '\u{26D3}' | '\u{26D4}' | '\u{26E9}' | '\u{26EA}' | '\u{26F0}' => true,
        '\u{26F1}' | '\u{26F2}' | '\u{26F3}' | '\u{26F4}' | '\u{26F5}' | '\u{26F7}' => true,
        '\u{26F8}' | '\u{26F9}' | '\u{26FA}' | '\u{26FD}' | '\u{2702}' | '\u{2705}' => true,
        '\u{2708}' | '\u{2709}' | '\u{270A}' | '\u{270B}' | '\u{270C}' | '\u{270D}' => true,
        '\u{270F}' | '\u{2712}' | '\u{2714}' | '\u{2716}' | '\u{271D}' | '\u{2721}' => true,
        '\u{2728}' | '\u{2733}' | '\u{2734}' | '\u{2744}' | '\u{2747}' | '\u{274C}' => true,
        '\u{274E}' | '\u{2753}' | '\u{2754}' | '\u{2755}' | '\u{2757}' | '\u{2763}' => true,
        '\u{2764}' | '\u{2795}' | '\u{2796}' | '\u{2797}' | '\u{27A1}' | '\u{27B0}' => true,
        '\u{27BF}' | '\u{2934}' | '\u{2935}' | '\u{2B05}' | '\u{2B06}' | '\u{2B07}' => true,
        '\u{2B1B}' | '\u{2B1C}' | '\u{2B50}' | '\u{2B55}' => true,
        _ => false,
    }
}

/// Decides `allowed_base`.
pub fn allowed_base_char(c: char) -> (r: bool)
    ensures
        r == allowed_base(c),
{
    match c {
        '\u{00A9}' | '\u{00AE}' | '\u{203C}' | '\u{2049}' | '\u{2122}' | '\u{2139}' => true,
        '\u{2194}' | '\u{2195}' | '\u{2196}' | '\u{2197}' | '\u{2198}' | '\u{2199}' => true,
        '\u{21A9}' | '\u{21AA}' | '\u{231A}' | '\u{231B}' | '\u{2328}' | '\u{23CF}' => true,
        '\u{23E9}' | '\u{23EA}' | '\u{23EB}' | '\u{23EC}' | '\u{23ED}' | '\u{23EE}' => true,
        '\u{23EF}' | '\u{23F0}' | '\u{23F1}' | '\u{23F2}' | '\u{23F3}' | '\u{23F8}' => true,
        '\u{23F9}' | '\u{23FA}' | '\u{24C2}' | '\u{25AA}' | '\u{25AB}' | '\u{25B6}' => true,
        '\u{25C0}' | '\u{25FB}' | '\u{25FC}' | '\u{25FD}' | '\u{25FE}' | '\u{2600}' => true,
        '\u{2601}' | '\u{2602}' | '\u{2603}' | '\u{2604}' | '\u{260E}' | '\u{2611}' => true,
        '\u{2614}' | '\u{2615}' | '\u{2618}' | '\u{261D}' | '\u{2620}' | '\u{2622}' => true,
        '\u{2623}' | '\u{2626}' | '\u{262A}' | '\u{262E}' | '\u{262F}' | '\u{2638}' => true,
        '\u{2639}' | '\u{263A}' | '\u{2640}' | '\u{2642}' | '\u{2648}' | '\u{2649}' => true,
        '\u{264A}' | '\u{264B}' | '\u{264C}' | '\u{264D}' | '\u{264E}' | '\u{264F}' => true,
        '\u{2650}' | '\u{2651}' | '\u{2652}' | '\u{2653}' | '\u{265F}' | '\u{2660}' => true,
        '\u{2663}' | '\u{2665}' | '\u{2666}' | '\u{2668}' | '\u{267B}' | '\u{267E}' => true,
        '\u{267F}' | '\u{2692}' | '\u{2693}' | '\u{2694}' | '\u{2695}' | '\u{2696}' => true,
        '\u{2697}' | '\u{2699}' | '\u{269B}' | '\u{269C}' | '\u{26A0}' | '\u{26A1}' => true,
        '\u{26A7}' | '\u{26AA}' | '\u{26AB}' | '\u{26B0}' | '\u{26B1}' | '\u{26BD}' => true,
        '\u{26BE}' | '\u{26C4}' | '\u{26C5}' | '\u{26C8}' | '\u{26CE}' | '\u{26CF}' => true,
        '\u{26D1}' | '\u{26D3}' | '\u{26D4}' | '\u{26E9}' | '\u{26EA}' | '\u{26F0}' => true,
        '\u{26F1}' | '\u{26F2}' | '\u{26F3}' | '\u{26F4}' | '\u{26F5}' | '\u{26F7}' => true,
        '\u{26F8}' | '\u{26F9}' | '\u{26FA}' | '\u{26FD}' | '\u{2702}' | '\u{2705}' => true,
        '\u{2708}' | '\u{2709}' | '\u{270A}' | '\u{270B}' | '\u{270C}' | '\u{270D}' => true,
        '\u{270F}' | '\u{2712}' | '\u{2714}' | '\u{2716}' | '\u{271D}' | '\u{2721}' => true,
        '\u{2728}' | '\u{2733}' | '\u{2734}' | '\u{2744}' | '\u{2747}' | '\u{274C}' => true,
        '\u{274E}' | '\u{2753}' | '\u{2754}' | '\u{2755}' | '\u{2757}' | '\u{2763}' => true,
        '\u{2764}' | '\u{2795}' | '\u{2796}' | '\u{2797}' | '\u{27A1}' | '\u{27B0}' => true,
        '\u{27BF}' | '\u{2934}' | '\u{2935}' | '\u{2B05}' | '\u{2B06}' | '\u{2B07}' => true,
        '\u{2B1B}' | '\u{2B1C}' | '\u{2B50}' | '\u{2B55}' => true,
        _ => false,
    }
}

/// A cluster with every variation selector removed.
pub open spec fn strip_variation(cl: Seq<char>) -> Seq<char>
    decreases cl.len(),
{
    if cl.len() == 0 {
        cl
    } else if cl[0] == '\u{FE0F}' {
        strip_variation(cl.drop_first())
    } else {
        seq![cl[0]] + strip_variation(cl.drop_first())
    }
}

/// Membership in the allow-list as an exact string: the list holds the bare
/// base characters.
pub open spec fn in_allow_list(cl: Seq<char>) -> bool {
    cl.len() == 1 && allowed_base(cl[0])
}

/// Whether a captured pictographic cluster is accepted unchanged: it is
/// compared against the allow-list both as captured and with any variation
/// selector stripped, and accepted if either form is a member.
pub open spec fn spec_supported_cluster(cl: Seq<char>) -> bool {
    in_allow_list(cl) || in_allow_list(strip_variation(cl))
}

/// Decides `spec_supported_cluster` for one captured cluster.
pub fn is_supported_emoji(cluster: &str) -> (r: bool)
    ensures
        r == spec_supported_cluster(cluster@),
{
    let cl = to_chars(cluster);
    let n = cl.len();
    let mut stripped: Vec<char> = Vec::new();
    let mut i: usize = 0;
    proof {
        assert(cluster@.skip(0) =~= cluster@);
        assert(Seq::<char>::empty() + strip_variation(cluster@) =~= strip_variation(cluster@));
    }
    while i < n
        invariant
            i <= n,
            n == cl@.len(),
            cl@ == cluster@,
            strip_variation(cluster@) == stripped@ + strip_variation(cluster@.skip(i as int)),
        decreases n - i,
    {
        proof {
            assert(cluster@.skip(i as int).drop_first() =~= cluster@.skip(i + 1));
            assert(cluster@.skip(i as int)[0] == cluster@[i as int]);
        }
        if cl[i] != '\u{FE0F}' {
            stripped.push(cl[i]);
            proof {
                assert(stripped@ =~= stripped@.drop_last() + seq![cluster@[i as int]]);
                assert(stripped@.drop_last() + (seq![cluster@[i as int]] + strip_variation(
                    cluster@.skip(i + 1),
                )) =~= stripped@ + strip_variation(cluster@.skip(i + 1)));
            }
        }
        i += 1;
    }
    proof {
        assert(cluster@.skip(n as int) =~= Seq::<char>::empty());
        assert(stripped@ + strip_variation(cluster@.skip(n as int)) =~= stripped@);
    }
    let direct = cl.len() == 1 && allowed_base_char(cl[0]);
    let normalized = stripped.len() == 1 && allowed_base_char(stripped[0]);
    direct || normalized
}

} // verus!
