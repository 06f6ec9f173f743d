//! The template renderer: splits template text on the two brace
//! characters, and substitutes each `#`-prefixed segment by the module of
//! that name, else by the color whose key the segment names, else leaves
//! the segment's own text in place. A single, non-recursive pass:
//! substituted values are never re-scanned.
use vstd::prelude::*;

use crate::colors::ColorScheme;
use crate::modules::ModuleTable;
use crate::text::assoc_lookup;

verus! {

/// The two delimiter characters of the placeholder syntax.
pub open spec fn is_brace(c: char) -> bool {
    c == '{' || c == '}'
}

/// Splits `s` on brace characters, with `cur` the segment accumulated so
/// far: every brace ends the current segment and starts an empty one.
pub open spec fn split_acc(s: Seq<char>, cur: Seq<char>) -> Seq<Seq<char>>
    decreases s.len(),
{
    if s.len() == 0 {
        seq![cur]
    } else if is_brace(s[0]) {
        seq![cur] + split_acc(s.drop_first(), Seq::<char>::empty())
    } else {
        split_acc(s.drop_first(), cur.push(s[0]))
    }
}

/// The segments of a template: its text split on `{` and `}`. A text of
/// `k` braces yields `k + 1` segments, some possibly empty.
pub open spec fn split_segments(s: Seq<char>) -> Seq<Seq<char>> {
    split_acc(s, Seq::<char>::empty())
}

/// The value of a lowercase hexadecimal digit, and -1 for any other
/// character.
pub open spec fn hex_val(c: char) -> int {
    if '0' <= c && c <= '9' {
        c as int - '0' as int
    } else if 'a' <= c && c <= 'f' {
        10 + c as int - 'a' as int
    } else {
        -1
    }
}

/// The color index a placeholder key names, and -1 when it names none.
/// A key reaches the color `base0X` either as the single digit `X` or as
/// the two-digit suffix `0X`; any other key names no color.
pub open spec fn color_index(key: Seq<char>) -> int {
    if key.len() == 1 {
        hex_val(key[0])
    } else if key.len() == 2 && key[0] == '0' {
        hex_val(key[1])
    } else {
        -1
    }
}

/// How one segment renders. A segment that starts with `#` and has at
/// least one more character is a placeholder: its key (the text after the
/// `#`) resolves first to the module of that name, then to the color the
/// key names, and an unresolved placeholder degrades to its own text,
/// leading `#` included. Every other segment passes through unchanged.
pub open spec fn resolve_segment(
    seg: Seq<char>,
    modules: Seq<(Seq<char>, Seq<char>)>,
    colors: Seq<Seq<char>>,
) -> Seq<char> {
    if seg.len() >= 2 && seg[0] == '#' {
        let key = seg.skip(1);
        if assoc_lookup(modules, key) is Some {
            assoc_lookup(modules, key)->Some_0
        } else if color_index(key) >= 0 {
            colors[color_index(key)]
        } else {
            seg
        }
    } else {
        seg
    }
}

/// The concatenation of a sequence of segments, each resolved.
pub open spec fn render_segs(
    segs: Seq<Seq<char>>,
    modules: Seq<(Seq<char>, Seq<char>)>,
    colors: Seq<Seq<char>>,
) -> Seq<char>
    decreases segs.len(),
{
    if segs.len() == 0 {
        Seq::<char>::empty()
    } else {
        resolve_segment(segs[0], modules, colors) + render_segs(segs.drop_first(), modules, colors)
    }
}

/// What rendering a template yields: its segments, resolved and joined.
pub open spec fn spec_render(
    s: Seq<char>,
    modules: Seq<(Seq<char>, Seq<char>)>,
    colors: Seq<Seq<char>>,
) -> Seq<char> {
    render_segs(split_segments(s), modules, colors)
}

/// Rendering is deterministic: the same template rendered against an
/// unchanged module table and color scheme yields the same text, so two
/// passes over unchanged inputs are byte-identical.
pub proof fn lemma_render_deterministic(
    t: Seq<char>,
    modules: Seq<(Seq<char>, Seq<char>)>,
    colors: Seq<Seq<char>>,
    r1: Seq<char>,
    r2: Seq<char>,
)
    requires
        r1 == spec_render(t, modules, colors),
        r2 == spec_render(t, modules, colors),
    ensures
        r1 == r2,
{
}

/// Resolution priority: a placeholder whose key the module table holds
/// resolves to the module's value, whatever the color scheme would say
/// for the same key.
pub proof fn lemma_module_wins(
    seg: Seq<char>,
    modules: Seq<(Seq<char>, Seq<char>)>,
    colors: Seq<Seq<char>>,
    v: Seq<char>,
)
    requires
        seg.len() >= 2,
        seg[0] == '#',
        assoc_lookup(modules, seg.skip(1)) == Some(v),
    ensures
        resolve_segment(seg, modules, colors) == v,
{
}

/// The value of a lowercase hexadecimal digit character.
fn hex_val_exec(c: char) -> (r: Option<usize>)
    ensures
        match r {
            Some(i) => hex_val(c) == i as int && i < 16,
            None => hex_val(c) == -1,
        },
{
    if '0' <= c && c <= '9' {
        Some(((c as u32) - ('0' as u32)) as usize)
    } else if 'a' <= c && c <= 'f' {
        Some((10 + (c as u32) - ('a' as u32)) as usize)
    } else {
        None
    }
}

/// The color index a placeholder key names, if any.
pub fn color_index_exec(key: &String) -> (r: Option<usize>)
    ensures
        match r {
            Some(i) => color_index(key@) == i as int && i < 16,
            None => color_index(key@) == -1,
        },
{
    let n = key.as_str().unicode_len();
    if n == 1 {
        hex_val_exec(key.as_str().get_char(0))
    } else if n == 2 && key.as_str().get_char(0) == '0' {
        hex_val_exec(key.as_str().get_char(1))
    } else {
        None
    }
}

/// Renders one segment, as `resolve_segment` states.
pub fn resolve_segment_exec(seg: &String, modules: &ModuleTable, colors: &ColorScheme) -> (r:
    String)
    requires
        colors.wf(),
    ensures
        r@ == resolve_segment(seg@, modules@, colors@),
{
    let n = seg.as_str().unicode_len();
    if n >= 2 && seg.as_str().get_char(0) == '#' {
        let key = String::from_str(seg.as_str().substring_char(1, n));
        proof {
            assert(key@ =~= seg@.skip(1));
        }
        match modules.get(&key) {
            Some(v) => v.clone(),
            None => {
                match color_index_exec(&key) {
                    Some(idx) => colors.value(idx).clone(),
                    None => seg.clone(),
                }
            },
        }
    } else {
        seg.clone()
    }
}

/// Renders a template against the module table and the color scheme: the
/// template's text split on braces, each segment resolved, the results
/// joined. Unresolved placeholders pass through as their own text; the
/// pass never fails.
pub fn render(template: &str, modules: &ModuleTable, colors: &ColorScheme) -> (out: String)
    requires
        colors.wf(),
    ensures
        out@ == spec_render(template@, modules@, colors@),
{
    let n = template.unicode_len();
    let mut out = String::new();
    let mut cur = String::new();
    let mut i: usize = 0;
    proof {
        assert(template@.skip(0) =~= template@);
        assert(cur@ =~= Seq::<char>::empty());
        let whole = render_segs(split_acc(template@, Seq::<char>::empty()), modules@, colors@);
        assert(out@ + whole =~= whole);
    }
    while i < n
        invariant
            i <= n,
            n == template@.len(),
            colors.wf(),
            out@ + render_segs(split_acc(template@.skip(i as int), cur@), modules@, colors@)
                == spec_render(template@, modules@, colors@),
        decreases n - i,
    {
        let ghost rest = template@.skip(i as int);
        let ghost prev = cur@;
        let c = template.get_char(i);
        proof {
            assert(rest[0] == template@[i as int]);
            assert(rest.drop_first() =~= template@.skip(i as int + 1));
        }
        if c == '{' || c == '}' {
            let ghost out0 = out@;
            let resolved = resolve_segment_exec(&cur, modules, colors);
            out.append(resolved.as_str());
            cur = String::new();
            proof {
                let tail = split_acc(template@.skip(i as int + 1), Seq::<char>::empty());
                assert(split_acc(rest, prev) == seq![prev] + tail);
                assert((seq![prev] + tail)[0] == prev);
                assert((seq![prev] + tail).drop_first() =~= tail);
                assert(render_segs(seq![prev] + tail, modules@, colors@) == resolve_segment(
                    prev,
                    modules@,
                    colors@,
                ) + render_segs(tail, modules@, colors@));
                let rseg = resolve_segment(prev, modules@, colors@);
                let rtail = render_segs(tail, modules@, colors@);
                assert((out0 + rseg) + rtail =~= out0 + (rseg + rtail));
                assert(cur@ =~= Seq::<char>::empty());
            }
        } else {
            cur.push(c);
            proof {
                assert(split_acc(rest, prev) == split_acc(
                    template@.skip(i as int + 1),
                    prev.push(template@[i as int]),
                ));
            }
        }
        i = i + 1;
    }
    let resolved = resolve_segment_exec(&cur, modules, colors);
    out.append(resolved.as_str());
    proof {
        assert(template@.skip(n as int) =~= Seq::<char>::empty());
        assert(split_acc(Seq::<char>::empty(), cur@) == seq![cur@]);
        assert(render_segs(seq![cur@], modules@, colors@) == resolve_segment(
            cur@,
            modules@,
            colors@,
        ) + render_segs(seq![cur@].drop_first(), modules@, colors@));
        assert(seq![cur@].drop_first() =~= Seq::<Seq<char>>::empty());
        assert(resolve_segment(cur@, modules@, colors@) + Seq::<char>::empty() =~= resolve_segment(
            cur@,
            modules@,
            colors@,
        ));
    }
    out
}

} // verus!
