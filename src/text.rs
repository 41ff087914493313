//! The text form of a path: decimal numbers without trailing zeros, drawing
//! commands, and the path element that carries them with its colours.
use vstd::prelude::*;

verus! {

/// `s` with every trailing `'0'` removed.
pub open spec fn strip_zeros(s: Seq<char>) -> Seq<char>
    decreases s.len(),
{
    if s.len() > 0 && s.last() == '0' {
        strip_zeros(s.drop_last())
    } else {
        s
    }
}

/// A decimal number as written with a fixed count of fraction digits, with
/// the trailing zeros of its fraction and then a bare decimal point removed.
/// Text without a decimal point is left as it is.
pub open spec fn trimmed_number(s: Seq<char>) -> Seq<char> {
    if s.contains('.') {
        let z = strip_zeros(s);
        if z.len() > 0 && z.last() == '.' {
            z.drop_last()
        } else {
            z
        }
    } else {
        s
    }
}

/// A whole number written with `k` zero fraction digits after its decimal
/// point, or with no fraction at all, trims back to its integer part.
pub proof fn lemma_whole_number_trims(whole: Seq<char>, k: nat)
    requires
        !whole.contains('.'),
    ensures
        trimmed_number(whole + "."@ + Seq::new(k, |i: int| '0')) == whole,
        trimmed_number(whole) == whole,
{
    reveal_strlit(".");
    let t = whole + "."@ + Seq::new(k, |i: int| '0');
    assert(t[whole.len() as int] == '.');
    lemma_strip_zeros_to_dot(whole, k);
    assert((whole + "."@).drop_last() =~= whole);
}

/// Stripping the zeros after a decimal point stops at the point.
proof fn lemma_strip_zeros_to_dot(whole: Seq<char>, k: nat)
    ensures
        strip_zeros(whole + "."@ + Seq::new(k, |i: int| '0')) == whole + "."@,
    decreases k,
{
    reveal_strlit(".");
    let t = whole + "."@ + Seq::new(k, |i: int| '0');
    if k == 0 {
        assert(t =~= whole + "."@);
    } else {
        assert(t.drop_last() =~= whole + "."@ + Seq::new((k - 1) as nat, |i: int| '0'));
        lemma_strip_zeros_to_dot(whole, (k - 1) as nat);
    }
}

/// Removing trailing zeros from text that holds a decimal point keeps it.
proof fn lemma_strip_zeros_keeps_dot(s: Seq<char>)
    requires
        s.contains('.'),
    ensures
        strip_zeros(s).len() > 0,
        strip_zeros(s).len() <= s.len(),
        strip_zeros(s) == s.subrange(0, strip_zeros(s).len() as int),
    decreases s.len(),
{
    if s.len() > 0 && s.last() == '0' {
        let i = choose|i: int| 0 <= i < s.len() && s[i] == '.';
        assert(s.drop_last()[i] == '.');
        lemma_strip_zeros_keeps_dot(s.drop_last());
        assert(strip_zeros(s) =~= s.subrange(0, strip_zeros(s).len() as int));
    } else {
        assert(s =~= s.subrange(0, s.len() as int));
    }
}

/// Trims a rendered decimal number: `"12.500"` becomes `"12.5"`, `"12.000"`
/// becomes `"12"`, and `"120"` stays as it is.
pub fn trim_number(s: &str) -> (r: String)
    ensures
        r@ == trimmed_number(s@),
{
    let n = s.unicode_len();
    let mut has_dot = false;
    let mut i: usize = 0;
    while i < n
        invariant
            i <= n == s@.len(),
            has_dot == (exists|j: int| 0 <= j < i && s@[j] == '.'),
        decreases n - i,
    {
        if s.get_char(i) == '.' {
            has_dot = true;
        }
        i = i + 1;
    }
    if !has_dot {
        return String::from_str(s);
    }
    proof {
        lemma_strip_zeros_keeps_dot(s@);
    }
    let mut end: usize = n;
    assert(s@.subrange(0, n as int) =~= s@);
    while end > 0 && s.get_char(end - 1) == '0'
        invariant
            end <= n == s@.len(),
            strip_zeros(s@.subrange(0, end as int)) == strip_zeros(s@),
        decreases end,
    {
        assert(s@.subrange(0, end as int).drop_last() =~= s@.subrange(0, end - 1));
        end = end - 1;
    }
    assert(strip_zeros(s@.subrange(0, end as int)) == s@.subrange(0, end as int));
    if end > 0 && s.get_char(end - 1) == '.' {
        end = end - 1;
    }
    String::from_str(s.substring_char(0, end))
}

/// The views of a sequence of strings.
pub open spec fn views(v: Seq<String>) -> Seq<Seq<char>> {
    v.map_values(|f: String| f@)
}

/// Each field preceded by one space.
pub open spec fn spaced(fields: Seq<Seq<char>>) -> Seq<char>
    decreases fields.len(),
{
    if fields.len() == 0 {
        Seq::empty()
    } else {
        spaced(fields.drop_last()) + " "@ + fields.last()
    }
}

/// The parts separated by single spaces.
pub open spec fn joined(parts: Seq<Seq<char>>) -> Seq<char>
    decreases parts.len(),
{
    if parts.len() == 0 {
        Seq::empty()
    } else if parts.len() == 1 {
        parts[0]
    } else {
        joined(parts.drop_last()) + " "@ + parts.last()
    }
}

/// A path element whose `d` attribute is `d`, with its fill and stroke.
pub open spec fn element(d: Seq<char>, fill: Seq<char>, stroke: Seq<char>) -> Seq<char> {
    "<path d=\""@ + d + "\" fill=\""@ + fill + "\" stroke=\""@ + stroke + "\" />"@
}

/// Joined parts begin with the first part and end with the last one.
proof fn lemma_joined_ends(parts: Seq<Seq<char>>)
    requires
        parts.len() > 0,
    ensures
        joined(parts).len() >= parts[0].len(),
        joined(parts).subrange(0, parts[0].len() as int) == parts[0],
        joined(parts).len() >= parts.last().len(),
        joined(parts).subrange(joined(parts).len() - parts.last().len(), joined(parts).len() as int)
            == parts.last(),
    decreases parts.len(),
{
    let j = joined(parts);
    if parts.len() == 1 {
        assert(j.subrange(0, j.len() as int) =~= j);
    } else {
        let p = parts.drop_last();
        lemma_joined_ends(p);
        assert(p[0] == parts[0]);
        assert(j.subrange(0, parts[0].len() as int) =~= joined(p).subrange(0, parts[0].len() as int));
        assert(j.subrange(j.len() - parts.last().len(), j.len() as int) =~= parts.last());
    }
}

/// The text of the element that the commands of an outline make: it opens
/// with the tag and a `d` attribute that starts with the first command's `M`,
/// and it closes with the last command's `Z`, the end of `d`, then the fill
/// and the stroke as given and the end of the tag.
pub proof fn lemma_element_shape(commands: Seq<Seq<char>>, fill: Seq<char>, stroke: Seq<char>)
    requires
        commands.len() > 0,
        commands[0].len() > 0,
        commands[0][0] == 'M',
        commands.last() == "Z"@,
    ensures
        ({
            let t = element(joined(commands), fill, stroke);
            let head = "<path d=\"M"@;
            let tail = "Z\" fill=\""@ + fill + "\" stroke=\""@ + stroke + "\" />"@;
            &&& t.len() >= head.len() + tail.len()
            &&& t.subrange(0, head.len() as int) == head
            &&& t.subrange(t.len() - tail.len(), t.len() as int) == tail
        }),
{
    reveal_strlit("<path d=\"M");
    reveal_strlit("<path d=\"");
    reveal_strlit("Z");
    reveal_strlit("Z\" fill=\"");
    reveal_strlit("\" fill=\"");
    let d = joined(commands);
    lemma_joined_ends(commands);
    let t = element(d, fill, stroke);
    let head = "<path d=\"M"@;
    let tail = "Z\" fill=\""@ + fill + "\" stroke=\""@ + stroke + "\" />"@;
    let rest = "\" fill=\""@ + fill + "\" stroke=\""@ + stroke + "\" />"@;
    assert(t =~= "<path d=\""@ + d + rest);
    assert(tail =~= "Z"@ + rest);
    assert(d.subrange(0, 1) =~= seq!['M']);
    assert(t.subrange(0, head.len() as int) =~= head);
    assert(d.subrange(d.len() - 1, d.len() as int) =~= "Z"@);
    assert(t.subrange(t.len() - tail.len(), t.len() as int) =~= tail);
}

/// Writes one drawing command: its letter, then each field after a space
/// (`"M 1 2"`, or `"Z"` with no fields).
pub fn command_text(letter: &str, fields: &Vec<String>) -> (r: String)
    ensures
        r@ == letter@ + spaced(views(fields@)),
{
    let mut r = String::from_str(letter);
    let mut i: usize = 0;
    while i < fields.len()
        invariant
            i <= fields@.len(),
            r@ == letter@ + spaced(views(fields@.subrange(0, i as int))),
        decreases fields@.len() - i,
    {
        r.append(" ");
        r.append(fields[i].as_str());
        proof {
            let a = views(fields@.subrange(0, i + 1));
            assert(a.drop_last() =~= views(fields@.subrange(0, i as int)));
        }
        i = i + 1;
    }
    assert(fields@.subrange(0, i as int) =~= fields@);
    r
}

/// Writes the commands, separated by single spaces, as the `d` attribute of
/// a path element with the given fill and stroke, taken as they are.
pub fn path_element(commands: &Vec<String>, fill: &str, stroke: &str) -> (r: String)
    ensures
        r@ == element(joined(views(commands@)), fill@, stroke@),
{
    let mut d = String::new();
    let mut i: usize = 0;
    while i < commands.len()
        invariant
            i <= commands@.len(),
            d@ == joined(views(commands@.subrange(0, i as int))),
        decreases commands@.len() - i,
    {
        if i > 0 {
            d.append(" ");
        }
        d.append(commands[i].as_str());
        proof {
            let a = views(commands@.subrange(0, i + 1));
            assert(a.drop_last() =~= views(commands@.subrange(0, i as int)));
        }
        i = i + 1;
    }
    assert(commands@.subrange(0, i as int) =~= commands@);
    let mut r = String::from_str("<path d=\"");
    r.append(d.as_str());
    r.append("\" fill=\"");
    r.append(fill);
    r.append("\" stroke=\"");
    r.append(stroke);
    r.append("\" />");
    r
}

} // verus!
