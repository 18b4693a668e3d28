//! Sanitizer: scans a text, leaves supported pictographic clusters and all
//! non-pictographic content untouched, and replaces every other pictographic
//! cluster with the fixed placeholder.

use vstd::prelude::*;
use crate::symbols::{
    allowed_base, cluster_mark, is_cluster_mark, is_pictographic, is_supported_emoji,
    pictographic_char, spec_supported_cluster, strip_variation,
};
use crate::text::{is_blank, is_space_char, to_chars};

verus! {

/// The two-character placeholder an unsupported pictographic cluster
/// becomes.
pub open spec fn placeholder() -> Seq<char> {
    seq!['[', ']']
}

/// The sanitized form of a text. Scanning left to right: a pictographic
/// base character, together with one immediately following cluster mark if
/// any, forms a captured cluster, which is kept exactly when the classifier
/// accepts it and otherwise becomes the placeholder; every other character
/// is passed through unchanged.
pub open spec fn sanitize_spec(s: Seq<char>) -> Seq<char>
    decreases s.len(),
{
    if s.len() == 0 {
        s
    } else if is_pictographic(s[0]) {
        let k: int = if s.len() >= 2 && is_cluster_mark(s[1]) {
            2
        } else {
            1
        };
        let kept = if spec_supported_cluster(s.take(k)) {
            s.take(k)
        } else {
            placeholder()
        };
        kept + sanitize_spec(s.skip(k))
    } else {
        seq![s[0]] + sanitize_spec(s.skip(1))
    }
}

/// A text that starts with something other than a cluster mark sanitizes
/// to a nonempty text that also starts with something other than a cluster
/// mark: kept clusters keep their base, and the placeholder opens with a
/// bracket.
proof fn lemma_sanitize_head_not_mark(x: Seq<char>)
    requires
        x.len() > 0,
        !is_cluster_mark(x[0]),
    ensures
        sanitize_spec(x).len() > 0,
        !is_cluster_mark(sanitize_spec(x)[0]),
{
    if is_pictographic(x[0]) {
        let k: int = if x.len() >= 2 && is_cluster_mark(x[1]) {
            2
        } else {
            1
        };
        if spec_supported_cluster(x.take(k)) {
            assert(sanitize_spec(x)[0] == x.take(k)[0]);
        } else {
            assert(sanitize_spec(x)[0] == '[');
        }
    } else {
        assert(sanitize_spec(x)[0] == x[0]);
    }
}

/// Sanitization is idempotent: sanitizing an already-sanitized text
/// changes nothing, because kept clusters are still captured and kept, the
/// placeholder is plain non-pictographic text, and passed-through
/// characters pass through again.
pub proof fn lemma_sanitize_idempotent(s: Seq<char>)
    ensures
        sanitize_spec(sanitize_spec(s)) == sanitize_spec(s),
    decreases s.len(),
{
    if s.len() == 0 {
    } else if is_pictographic(s[0]) {
        let k: int = if s.len() >= 2 && is_cluster_mark(s[1]) {
            2
        } else {
            1
        };
        let c = s.take(k);
        let rest = s.skip(k);
        let x = sanitize_spec(rest);
        lemma_sanitize_idempotent(rest);
        if spec_supported_cluster(c) {
            assert(sanitize_spec(s) == c + x);
            assert((c + x)[0] == s[0]);
            if k == 2 {
                assert((c + x)[1] == s[1]);
                assert((c + x).take(2) =~= c);
                assert((c + x).skip(2) =~= x);
                assert(sanitize_spec(c + x) == c + sanitize_spec(x));
            } else if rest.len() == 0 {
                assert(x =~= Seq::<char>::empty());
                assert((c + x).len() == 1);
                assert((c + x).take(1) =~= c);
                assert((c + x).skip(1) =~= x);
                assert(sanitize_spec(c + x) == c + sanitize_spec(x));
            } else {
                assert(rest[0] == s[1]);
                assert(!is_cluster_mark(s[1]));
                lemma_sanitize_head_not_mark(rest);
                assert((c + x)[1] == x[0]);
                assert((c + x).take(1) =~= c);
                assert((c + x).skip(1) =~= x);
                assert(sanitize_spec(c + x) == c + sanitize_spec(x));
            }
        } else {
            let p = placeholder();
            assert(sanitize_spec(s) == p + x);
            assert((p + x)[0] == '[');
            assert(!is_pictographic('['));
            assert((p + x).skip(1) =~= seq![']'] + x);
            assert(sanitize_spec(p + x) == seq!['['] + sanitize_spec(seq![']'] + x));
            assert((seq![']'] + x)[0] == ']');
            assert(!is_pictographic(']'));
            assert((seq![']'] + x).skip(1) =~= x);
            assert(sanitize_spec(seq![']'] + x) == seq![']'] + sanitize_spec(x));
            assert(seq!['['] + (seq![']'] + x) =~= p + x);
        }
    } else {
        let rest = s.skip(1);
        let x = sanitize_spec(rest);
        lemma_sanitize_idempotent(rest);
        assert(sanitize_spec(s) == seq![s[0]] + x);
        assert((seq![s[0]] + x)[0] == s[0]);
        assert((seq![s[0]] + x).skip(1) =~= x);
        assert(sanitize_spec(seq![s[0]] + x) == seq![s[0]] + sanitize_spec(x));
    }
}

/// Sanitization preserves non-pictographic content exactly: a text none of
/// whose characters is pictographic — accented letters, punctuation,
/// non-Latin scripts — comes back unchanged.
pub proof fn lemma_sanitize_preserves_plain(s: Seq<char>)
    requires
        forall|i: int| 0 <= i < s.len() ==> !is_pictographic(s[i]),
    ensures
        sanitize_spec(s) == s,
    decreases s.len(),
{
    if s.len() > 0 {
        assert forall|i: int| 0 <= i < s.skip(1).len() implies !is_pictographic(
            #[trigger] s.skip(1)[i],
        ) by {
            assert(s.skip(1)[i] == s[i + 1]);
        }
        lemma_sanitize_preserves_plain(s.skip(1));
        assert(seq![s[0]] + s.skip(1) =~= s);
    }
}

/// A supported pictographic cluster passes through sanitization unchanged,
/// with or without a variation selector attached.
pub proof fn lemma_sanitize_supported_cluster(b: char)
    requires
        is_pictographic(b),
        allowed_base(b),
    ensures
        sanitize_spec(seq![b]) == seq![b],
        sanitize_spec(seq![b, '\u{FE0F}']) == seq![b, '\u{FE0F}'],
{
    let fe = '\u{FE0F}';
    assert(b != fe);
    let s1 = seq![b];
    assert(s1.take(1) =~= s1);
    assert(s1.skip(1) =~= Seq::<char>::empty());
    assert(sanitize_spec(Seq::<char>::empty()) =~= Seq::<char>::empty());
    assert(spec_supported_cluster(s1));
    assert(sanitize_spec(s1) =~= s1);
    let s2 = seq![b, fe];
    assert(is_cluster_mark(s2[1]));
    assert(s2.take(2) =~= s2);
    assert(s2.skip(2) =~= Seq::<char>::empty());
    assert(s2.drop_first() =~= seq![fe]);
    assert(seq![fe].drop_first() =~= Seq::<char>::empty());
    assert(strip_variation(Seq::<char>::empty()) =~= Seq::<char>::empty());
    assert(strip_variation(seq![fe]) =~= Seq::<char>::empty());
    assert(strip_variation(s2) =~= seq![b]);
    assert(spec_supported_cluster(s2));
    assert(sanitize_spec(s2) =~= s2);
}

/// An unsupported pictographic cluster becomes the two-character
/// placeholder, with or without a variation selector attached.
pub proof fn lemma_sanitize_unsupported_cluster(b: char)
    requires
        is_pictographic(b),
        !allowed_base(b),
    ensures
        sanitize_spec(seq![b]) == placeholder(),
        sanitize_spec(seq![b, '\u{FE0F}']) == placeholder(),
{
    let fe = '\u{FE0F}';
    let s1 = seq![b];
    assert(s1.take(1) =~= s1);
    assert(s1.skip(1) =~= Seq::<char>::empty());
    assert(sanitize_spec(Seq::<char>::empty()) =~= Seq::<char>::empty());
    assert(strip_variation(Seq::<char>::empty()) =~= Seq::<char>::empty());
    assert(s1.drop_first() =~= Seq::<char>::empty());
    if b == fe {
        assert(strip_variation(s1) =~= Seq::<char>::empty());
    } else {
        assert(strip_variation(s1) =~= s1);
    }
    assert(!spec_supported_cluster(s1));
    assert(sanitize_spec(s1) =~= placeholder());
    let s2 = seq![b, fe];
    assert(is_cluster_mark(s2[1]));
    assert(s2.take(2) =~= s2);
    assert(s2.skip(2) =~= Seq::<char>::empty());
    assert(s2.drop_first() =~= seq![fe]);
    assert(seq![fe].drop_first() =~= Seq::<char>::empty());
    assert(strip_variation(seq![fe]) =~= Seq::<char>::empty());
    if b == fe {
        assert(strip_variation(s2) =~= Seq::<char>::empty());
    } else {
        assert(strip_variation(s2) =~= seq![b]);
    }
    assert(!spec_supported_cluster(s2));
    assert(sanitize_spec(s2) =~= placeholder());
}

/// Sanitizing never blanks a text: when some character of the input is not
/// whitespace, some character of the sanitized text is not whitespace
/// either — a kept cluster keeps its characters, and the placeholder is not
/// whitespace.
pub proof fn lemma_sanitize_not_blank(s: Seq<char>)
    requires
        !is_blank(s),
    ensures
        !is_blank(sanitize_spec(s)),
    decreases s.len(),
{
    let i = choose|i: int| 0 <= i < s.len() && !is_space_char(s[i]);
    assert(s.len() > 0);
    if is_pictographic(s[0]) {
        let k: int = if s.len() >= 2 && is_cluster_mark(s[1]) {
            2
        } else {
            1
        };
        let kept = if spec_supported_cluster(s.take(k)) {
            s.take(k)
        } else {
            placeholder()
        };
        let rest = sanitize_spec(s.skip(k));
        assert(sanitize_spec(s) == kept + rest);
        if !is_blank(s.skip(k)) {
            lemma_sanitize_not_blank(s.skip(k));
            let j = choose|j: int| 0 <= j < rest.len() && !is_space_char(rest[j]);
            assert((kept + rest)[kept.len() + j] == rest[j]);
        } else {
            assert(i >= k ==> is_space_char(s.skip(k)[i - k]) && s.skip(k)[i - k] == s[i]);
            assert(i < k);
            if spec_supported_cluster(s.take(k)) {
                assert((kept + rest)[i] == s[i]);
            } else {
                assert((kept + rest)[0] == '[');
                assert(!is_space_char('['));
            }
        }
    } else {
        let rest = sanitize_spec(s.skip(1));
        assert(sanitize_spec(s) == seq![s[0]] + rest);
        if !is_space_char(s[0]) {
            assert((seq![s[0]] + rest)[0] == s[0]);
        } else {
            assert(s.skip(1)[i - 1] == s[i]);
            assert(!is_blank(s.skip(1)));
            lemma_sanitize_not_blank(s.skip(1));
            let j = choose|j: int| 0 <= j < rest.len() && !is_space_char(rest[j]);
            assert((seq![s[0]] + rest)[1 + j] == rest[j]);
        }
    }
}

/// Message sanitizer for the transport's restricted character repertoire.
pub struct MessageSanitizer;

impl MessageSanitizer {
    /// Sanitizes a message: supported pictographic clusters and ordinary
    /// text are preserved byte for byte, unsupported pictographic clusters
    /// are replaced with the placeholder.
    pub fn sanitize(message: &str) -> (r: String)
        ensures
            r@ == sanitize_spec(message@),
    {
        let chars = to_chars(message);
        let n = chars.len();
        let mut out = String::from_str("");
        let mut i: usize = 0;
        proof {
            reveal_strlit("");
            assert(out@ =~= Seq::<char>::empty());
            assert(message@.skip(0) =~= message@);
            assert(out@ + sanitize_spec(message@) =~= sanitize_spec(message@));
        }
        while i < n
            invariant
                i <= n,
                n == message@.len(),
                chars@ == message@,
                sanitize_spec(message@) == out@ + sanitize_spec(message@.skip(i as int)),
            decreases n - i,
        {
            let ghost rem = message@.skip(i as int);
            proof {
                assert(rem[0] == message@[i as int]);
                assert(rem.len() == n - i);
            }
            if pictographic_char(chars[i]) {
                let k: usize = if i + 1 < n && cluster_mark(chars[i + 1]) {
                    2
                } else {
                    1
                };
                proof {
                    assert(i + 1 < n ==> rem[1] == message@[i + 1]);
                    assert(rem.take(k as int) =~= message@.subrange(i as int, i + k));
                    assert(rem.skip(k as int) =~= message@.skip(i + k));
                }
                let cluster = message.substring_char(i, i + k);
                let ghost prev = out@;
                let ghost kept = if spec_supported_cluster(rem.take(k as int)) {
                    rem.take(k as int)
                } else {
                    placeholder()
                };
                if is_supported_emoji(cluster) {
                    out.append(cluster);
                    proof {
                        assert(out@ =~= prev + kept);
                    }
                } else {
                    out.append("[]");
                    proof {
                        reveal_strlit("[]");
                        assert("[]"@ =~= placeholder());
                        assert(out@ =~= prev + kept);
                    }
                }
                proof {
                    assert(sanitize_spec(rem) == kept + sanitize_spec(rem.skip(k as int)));
                    assert(out@ + sanitize_spec(message@.skip(i + k)) =~= prev + sanitize_spec(
                        rem,
                    ));
                }
                i += k;
            } else {
                let piece = message.substring_char(i, i + 1);
                proof {
                    assert(piece@ =~= seq![message@[i as int]]);
                    assert(rem.skip(1) =~= message@.skip(i + 1));
                }
                let ghost prev = out@;
                out.append(piece);
                proof {
                    assert(out@ + sanitize_spec(message@.skip(i + 1)) =~= prev + sanitize_spec(
                        rem,
                    ));
                }
                i += 1;
            }
        }
        proof {
            assert(message@.skip(n as int) =~= Seq::<char>::empty());
            assert(out@ + sanitize_spec(message@.skip(n as int)) =~= out@);
        }
        out
    }
}

} // verus!
