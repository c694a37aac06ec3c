//! Where an identity stands in the script that pages see.
//!
//! The modules of the script hold marks, and each mark gives way to a part of the
//! identity. Here it is proved what stands around each part in the end.

use vstd::prelude::*;

use crate::config::StealthConfig;
use crate::decimal::{digits, is_digit, lemma_digits};
use crate::page::escape::{escaped, law_plain_text_stays};
use crate::stealth::evasions::{
    filled, first_language, literal, literal_list, modules, script_for, wrapped, FINGERPRINT_EVASION,
    NATIVE_TOSTRING_EVASION, NAVIGATOR_PROPS_EVASION, TIMEZONE_EVASION,
};
use crate::stealth::fingerprint::{nav_platform_of, FingerprintView, Platform};
use crate::text::{
    contains, join, lemma_replace_nothing, lemma_replace_split, lemma_replace_whole, occurs_at,
    replace_all,
};

verus! {

/// The marks, in the order in which they give way.
spec fn mark(i: int) -> Seq<char> {
    if i == 0 {
        "__EOKA_TIMEZONE__"@
    } else if i == 1 {
        "__EOKA_PLATFORM__"@
    } else if i == 2 {
        "__EOKA_LANGUAGES__"@
    } else if i == 3 {
        "__EOKA_LANGUAGE__"@
    } else if i == 4 {
        "__EOKA_HW__"@
    } else if i == 5 {
        "__EOKA_MEM__"@
    } else if i == 6 {
        "__EOKA_WEBGL_VENDOR__"@
    } else if i == 7 {
        "__EOKA_WEBGL_RENDERER__"@
    } else {
        "__EOKA_NOISE_SEED__"@
    }
}

/// A character that stands in marks.
spec fn in_mark(c: char) -> bool {
    'A' <= c <= 'Z' || c == '_'
}

/// No mark stands in the text.
pub open spec fn unmarked(text: Seq<char>) -> bool {
    !contains(text, "__EOKA_"@)
}

/// In the text no underscore is followed by another.
spec fn calm(text: Seq<char>) -> bool {
    forall|k: int| 0 <= k < text.len() - 1 && #[trigger] text[k] == '_' ==> text[k + 1] != '_'
}

/// Text that may stand beside a mark without blending into one.
spec fn apart_from_marks(text: Seq<char>) -> bool {
    &&& text.len() > 0
    &&& calm(text)
    &&& !in_mark(text[0])
    &&& !in_mark(text.last())
}

/// What every mark is like: it begins with two underscores and the project's name,
/// and holds nothing but upper-case letters and underscores.
proof fn lemma_mark(i: int)
    requires
        0 <= i < 9,
    ensures
        mark(i).len() > 8,
        "__EOKA_"@.is_prefix_of(mark(i)),
        mark(i)[0] == '_' && mark(i)[1] == '_' && mark(i)[2] == 'E',
        forall|k: int| 0 <= k < mark(i).len() ==> in_mark(#[trigger] mark(i)[k]),
        forall|k: int|
            1 <= k && k + 2 < mark(i).len() ==> !(#[trigger] mark(i)[k] == '_' && mark(i)[k + 1]
                == '_' && mark(i)[k + 2] == 'E'),
{
    reveal_strlit("__EOKA_");
    if i == 0 {
        reveal_strlit("__EOKA_TIMEZONE__");
        assert(mark(i).subrange(0, 7) =~= "__EOKA_"@);
    }
    if i == 1 {
        reveal_strlit("__EOKA_PLATFORM__");
        assert(mark(i).subrange(0, 7) =~= "__EOKA_"@);
    }
    if i == 2 {
        reveal_strlit("__EOKA_LANGUAGES__");
        assert(mark(i).subrange(0, 7) =~= "__EOKA_"@);
    }
    if i == 3 {
        reveal_strlit("__EOKA_LANGUAGE__");
        assert(mark(i).subrange(0, 7) =~= "__EOKA_"@);
    }
    if i == 4 {
        reveal_strlit("__EOKA_HW__");
        assert(mark(i).subrange(0, 7) =~= "__EOKA_"@);
    }
    if i == 5 {
        reveal_strlit("__EOKA_MEM__");
        assert(mark(i).subrange(0, 7) =~= "__EOKA_"@);
    }
    if i == 6 {
        reveal_strlit("__EOKA_WEBGL_VENDOR__");
        assert(mark(i).subrange(0, 7) =~= "__EOKA_"@);
    }
    if i == 7 {
        reveal_strlit("__EOKA_WEBGL_RENDERER__");
        assert(mark(i).subrange(0, 7) =~= "__EOKA_"@);
    }
    if i == 8 {
        reveal_strlit("__EOKA_NOISE_SEED__");
        assert(mark(i).subrange(0, 7) =~= "__EOKA_"@);
    }
}

/// No mark holds another.
proof fn lemma_marks_apart(i: int, j: int)
    requires
        0 <= i < 9,
        0 <= j < 9,
        i != j,
    ensures
        !contains(mark(i), mark(j)),
{
    reveal_strlit("__EOKA_TIMEZONE__");
    reveal_strlit("__EOKA_PLATFORM__");
    reveal_strlit("__EOKA_LANGUAGES__");
    reveal_strlit("__EOKA_LANGUAGE__");
    reveal_strlit("__EOKA_HW__");
    reveal_strlit("__EOKA_MEM__");
    reveal_strlit("__EOKA_WEBGL_VENDOR__");
    reveal_strlit("__EOKA_WEBGL_RENDERER__");
    reveal_strlit("__EOKA_NOISE_SEED__");
    lemma_mark(i);
    lemma_mark(j);
    if contains(mark(i), mark(j)) {
        let k = choose|k: int| occurs_at(mark(i), mark(j), k);
        let found = mark(i).subrange(k, k + mark(j).len());
        assert(found[0] == '_' && found[1] == '_' && found[2] == 'E');
        assert(mark(i)[k] == '_' && mark(i)[k + 1] == '_' && mark(i)[k + 2] == 'E');
        assert(k == 0);
        assert(found[7] == mark(j)[7] && found[8] == mark(j)[8]);
        assert(mark(i)[7] == mark(j)[7] && mark(i)[8] == mark(j)[8]);
        if (i == 2 && j == 3) || (i == 3 && j == 2) {
            assert(mark(j).len() <= mark(i).len());
            assert(found[15] == mark(j)[15] && mark(i)[15] == mark(j)[15]);
        }
        if (i == 6 && j == 7) || (i == 7 && j == 6) {
            assert(found[13] == mark(j)[13] && mark(i)[13] == mark(j)[13]);
        }
    }
}

/// A text in which no underscore follows another holds no mark.
proof fn lemma_calm_holds_no_mark(text: Seq<char>, j: int)
    requires
        calm(text),
        0 <= j < 9,
    ensures
        !contains(text, mark(j)),
{
    lemma_mark(j);
    if contains(text, mark(j)) {
        let k = choose|k: int| occurs_at(text, mark(j), k);
        let found = text.subrange(k, k + mark(j).len());
        assert(found[0] == '_' && found[1] == '_');
        assert(text[k] == '_' && text[k + 1] == '_');
    }
}

/// An unmarked text holds no mark.
proof fn lemma_unmarked_holds_no_mark(text: Seq<char>, j: int)
    requires
        unmarked(text),
        0 <= j < 9,
    ensures
        !contains(text, mark(j)),
{
    lemma_mark(j);
    reveal_strlit("__EOKA_");
    if contains(text, mark(j)) {
        let k = choose|k: int| occurs_at(text, mark(j), k);
        let found = text.subrange(k, k + mark(j).len());
        assert(text.subrange(k, k + 7) =~= found.subrange(0, 7));
        assert(mark(j).subrange(0, 7) =~= "__EOKA_"@);
        assert(occurs_at(text, "__EOKA_"@, k));
    }
}

/// A text without underscores is unmarked.
proof fn lemma_no_underscore(text: Seq<char>)
    requires
        forall|k: int| 0 <= k < text.len() ==> #[trigger] text[k] != '_',
    ensures
        unmarked(text),
{
    reveal_strlit("__EOKA_");
    if contains(text, "__EOKA_"@) {
        let k = choose|k: int| occurs_at(text, "__EOKA_"@, k);
        assert(text.subrange(k, k + 7)[0] == '_');
        assert(text[k] == '_');
    }
}

/// Digits are unmarked.
proof fn lemma_digits_unmarked(n: nat)
    ensures
        unmarked(digits(n)),
{
    lemma_digits(n);
    assert forall|k: int| 0 <= k < digits(n).len() implies #[trigger] digits(n)[k] != '_' by {
        assert(is_digit(digits(n)[k]));
    }
    lemma_no_underscore(digits(n));
}

/// What stands in a part of a text stands in the text.
proof fn lemma_contains_within(text: Seq<char>, part: Seq<char>, pat: Seq<char>)
    requires
        contains(text, part),
        contains(part, pat),
    ensures
        contains(text, pat),
{
    let a = choose|a: int| occurs_at(text, part, a);
    let b = choose|b: int| occurs_at(part, pat, b);
    assert(text.subrange(a + b, a + b + pat.len()) =~= text.subrange(
        a,
        a + part.len(),
    ).subrange(b, b + pat.len()));
    assert(occurs_at(text, pat, a + b));
}

/// What stands in the middle of a text stands in it.
proof fn lemma_contains_part(before: Seq<char>, part: Seq<char>, after: Seq<char>)
    ensures
        contains(before + part + after, part),
{
    let text = before + part + after;
    assert(text.subrange(before.len() as int, before.len() as int + part.len()) =~= part);
    assert(occurs_at(text, part, before.len() as int));
}

/// Each of some pieces stands in what they are joined to.
proof fn lemma_join_contains(pieces: Seq<Seq<char>>, sep: Seq<char>, i: int)
    requires
        0 <= i < pieces.len(),
    ensures
        contains(join(pieces, sep), pieces[i]),
    decreases pieces.len(),
{
    let whole = join(pieces, sep);
    if pieces.len() == 1 {
        assert(whole =~= Seq::empty() + pieces[0] + Seq::empty());
        lemma_contains_part(Seq::empty(), pieces[0], Seq::empty());
    } else if i == pieces.len() - 1 {
        let front = join(pieces.drop_last(), sep) + sep;
        assert(whole =~= front + pieces[i] + Seq::empty());
        lemma_contains_part(front, pieces[i], Seq::empty());
    } else {
        let front = join(pieces.drop_last(), sep);
        lemma_join_contains(pieces.drop_last(), sep, i);
        assert(pieces.drop_last()[i] == pieces[i]);
        assert(whole =~= Seq::empty() + front + (sep + pieces.last()));
        lemma_contains_part(Seq::empty(), front, sep + pieces.last());
        lemma_contains_within(whole, front, pieces[i]);
    }
}

/// A module stands in the script before its marks give way.
proof fn lemma_module_stands(aggressive: bool, perturbing: bool, i: int, pat: Seq<char>)
    requires
        0 <= i < modules(aggressive, perturbing).len(),
        contains(modules(aggressive, perturbing)[i], pat),
    ensures
        contains(wrapped(modules(aggressive, perturbing)), pat),
{
    let list = modules(aggressive, perturbing);
    let body = join(list, "\n"@);
    lemma_join_contains(list, "\n"@, i);
    lemma_contains_part("(function(){"@, body, "})();"@);
    lemma_contains_within(body, list[i], pat);
    lemma_contains_within(wrapped(list), body, pat);
}

/// Between texts that are apart from marks, a part of the script changes by itself.
proof fn lemma_fill_between(
    text: Seq<char>,
    before: Seq<char>,
    part: Seq<char>,
    after: Seq<char>,
    j: int,
    value: Seq<char>,
)
    requires
        0 <= j < 9,
        apart_from_marks(before),
        apart_from_marks(after),
        contains(text, before + part + after),
    ensures
        contains(
            replace_all(text, mark(j), value),
            before + replace_all(part, mark(j), value) + after,
        ),
{
    let q = mark(j);
    lemma_mark(j);
    let whole = before + part + after;
    let at = choose|at: int| occurs_at(text, whole, at);
    let x = text.take(at);
    let y = text.skip(at + whole.len());
    assert(text =~= x + whole + y);
    let first = before[0];
    let last_before = before.last();
    let first_after = after[0];
    let last = after.last();
    assert(!q.contains(first)) by {
        if q.contains(first) {
            let k = choose|k: int| 0 <= k < q.len() && q[k] == first;
            assert(in_mark(q[k]));
        }
    }
    assert(!q.contains(last_before)) by {
        if q.contains(last_before) {
            let k = choose|k: int| 0 <= k < q.len() && q[k] == last_before;
            assert(in_mark(q[k]));
        }
    }
    assert(!q.contains(first_after)) by {
        if q.contains(first_after) {
            let k = choose|k: int| 0 <= k < q.len() && q[k] == first_after;
            assert(in_mark(q[k]));
        }
    }
    assert(!q.contains(last)) by {
        if q.contains(last) {
            let k = choose|k: int| 0 <= k < q.len() && q[k] == last;
            assert(in_mark(q[k]));
        }
    }
    let early = before.drop_last();
    let late = after.skip(1);
    // Up to the last character of what stands before, then the part, then the rest.
    let rest = part + seq![first_after] + (late + y);
    assert(text =~= (x + early) + seq![last_before] + rest);
    lemma_replace_split(x + early, last_before, rest, q, value);
    lemma_replace_split(part, first_after, late + y, q, value);
    // What stands before is found whole behind whatever became of `x`.
    lemma_kept_behind(x, before, j, value);
    lemma_kept_ahead(after, y, j, value);
    let rx = replace_all(x, q, value);
    let ry = replace_all(y, q, value);
    let filled_part = replace_all(part, q, value);
    assert(replace_all(x + early, q, value) == rx + early);
    assert(replace_all(late + y, q, value) == late + ry);
    assert(rx + early + seq![last_before] =~= rx + before);
    assert(seq![first_after] + (late + ry) =~= after + ry);
    let result = replace_all(text, q, value);
    assert(result =~= rx + (before + filled_part + after) + ry);
    lemma_contains_part(rx, before + filled_part + after, ry);
}

/// What stands behind `x` and is apart from marks is kept, but for its last
/// character, which is left out here.
proof fn lemma_kept_behind(x: Seq<char>, before: Seq<char>, j: int, value: Seq<char>)
    requires
        0 <= j < 9,
        apart_from_marks(before),
    ensures
        replace_all(x + before.drop_last(), mark(j), value) == replace_all(x, mark(j), value)
            + before.drop_last(),
{
    let q = mark(j);
    lemma_mark(j);
    if before.len() == 1 {
        assert(x + before.drop_last() =~= x);
        assert(replace_all(x, q, value) + before.drop_last() =~= replace_all(x, q, value));
    } else {
        let d = before[0];
        let inner = before.drop_last().skip(1);
        assert(!q.contains(d)) by {
            if q.contains(d) {
                let k = choose|k: int| 0 <= k < q.len() && q[k] == d;
                assert(in_mark(q[k]));
            }
        }
        assert(x + before.drop_last() =~= x + seq![d] + inner);
        lemma_replace_split(x, d, inner, q, value);
        assert(calm(inner)) by {
            assert forall|k: int| 0 <= k < inner.len() - 1 && #[trigger] inner[k] == '_' implies inner[
            k + 1] != '_' by {
                assert(before[k + 1] == '_');
            }
        }
        lemma_calm_holds_no_mark(inner, j);
        lemma_replace_nothing(inner, q, value);
        assert(before.drop_last() =~= seq![d] + inner);
        assert(replace_all(x, q, value) + seq![d] + inner =~= replace_all(x, q, value)
            + before.drop_last());
    }
}

/// What stands ahead of `y` and is apart from marks is kept, but for its first
/// character, which is left out here.
proof fn lemma_kept_ahead(after: Seq<char>, y: Seq<char>, j: int, value: Seq<char>)
    requires
        0 <= j < 9,
        apart_from_marks(after),
    ensures
        replace_all(after.skip(1) + y, mark(j), value) == after.skip(1) + replace_all(
            y,
            mark(j),
            value,
        ),
{
    let q = mark(j);
    lemma_mark(j);
    if after.len() == 1 {
        assert(after.skip(1) + y =~= y);
        assert(after.skip(1) + replace_all(y, q, value) =~= replace_all(y, q, value));
    } else {
        let d = after.last();
        let inner = after.skip(1).drop_last();
        assert(!q.contains(d)) by {
            if q.contains(d) {
                let k = choose|k: int| 0 <= k < q.len() && q[k] == d;
                assert(in_mark(q[k]));
            }
        }
        assert(after.skip(1) + y =~= inner + seq![d] + y);
        lemma_replace_split(inner, d, y, q, value);
        assert(calm(inner)) by {
            assert forall|k: int| 0 <= k < inner.len() - 1 && #[trigger] inner[k] == '_' implies inner[
            k + 1] != '_' by {
                assert(after[k + 1] == '_');
            }
        }
        lemma_calm_holds_no_mark(inner, j);
        lemma_replace_nothing(inner, q, value);
        assert(after.skip(1) =~= inner + seq![d]);
        assert(inner + seq![d] + replace_all(y, q, value) =~= after.skip(1) + replace_all(
            y,
            q,
            value,
        ));
    }
}

/// The first `n` marks have given way to the values.
spec fn filled_up_to(text: Seq<char>, values: Seq<Seq<char>>, n: nat) -> Seq<char>
    decreases n,
{
    if n == 0 {
        text
    } else {
        replace_all(filled_up_to(text, values, (n - 1) as nat), mark(n - 1), values[n - 1])
    }
}

/// A mark keeps what stands around it, and gives way to its own value.
proof fn lemma_place(
    text: Seq<char>,
    values: Seq<Seq<char>>,
    i: int,
    before: Seq<char>,
    after: Seq<char>,
    n: nat,
)
    requires
        0 <= i < 9,
        n <= 9,
        values.len() == 9,
        apart_from_marks(before),
        apart_from_marks(after),
        unmarked(values[i]),
        contains(text, before + mark(i) + after),
    ensures
        contains(
            filled_up_to(text, values, n),
            before + (if n <= i {
                mark(i)
            } else {
                values[i]
            }) + after,
        ),
    decreases n,
{
    if n > 0 {
        let j = n - 1;
        lemma_place(text, values, i, before, after, j as nat);
        let so_far = filled_up_to(text, values, j as nat);
        lemma_mark(j);
        if j < i {
            lemma_fill_between(so_far, before, mark(i), after, j, values[j]);
            lemma_marks_apart(i, j);
            lemma_replace_nothing(mark(i), mark(j), values[j]);
        } else if j == i {
            lemma_fill_between(so_far, before, mark(i), after, j, values[j]);
            lemma_replace_whole(mark(j), values[j]);
        } else {
            lemma_fill_between(so_far, before, values[i], after, j, values[j]);
            lemma_unmarked_holds_no_mark(values[i], j);
            lemma_replace_nothing(values[i], mark(j), values[j]);
        }
    }
}

/// What the marks give way to.
spec fn values_of(timezone: Seq<char>, fp: FingerprintView) -> Seq<Seq<char>> {
    seq![
        escaped(timezone),
        escaped(nav_platform_of(fp.platform)),
        literal_list(fp.languages),
        escaped(first_language(fp.languages)),
        digits(fp.hardware_concurrency as nat),
        digits(fp.device_memory as nat),
        escaped(fp.webgl_vendor),
        escaped(fp.webgl_renderer),
        digits(fp.noise_seed as nat),
    ]
}

proof fn lemma_filled(text: Seq<char>, timezone: Seq<char>, fp: FingerprintView)
    ensures
        filled(text, timezone, fp) == filled_up_to(text, values_of(timezone, fp), 9),
{
    let values = values_of(timezone, fp);
    let s0 = filled_up_to(text, values, 0);
    assert(filled_up_to(text, values, 1) == replace_all(s0, mark(0), values[0]));
    assert(filled_up_to(text, values, 2) == replace_all(
        filled_up_to(text, values, 1),
        mark(1),
        values[1],
    ));
    assert(filled_up_to(text, values, 3) == replace_all(
        filled_up_to(text, values, 2),
        mark(2),
        values[2],
    ));
    assert(filled_up_to(text, values, 4) == replace_all(
        filled_up_to(text, values, 3),
        mark(3),
        values[3],
    ));
    assert(filled_up_to(text, values, 5) == replace_all(
        filled_up_to(text, values, 4),
        mark(4),
        values[4],
    ));
    assert(filled_up_to(text, values, 6) == replace_all(
        filled_up_to(text, values, 5),
        mark(5),
        values[5],
    ));
    assert(filled_up_to(text, values, 7) == replace_all(
        filled_up_to(text, values, 6),
        mark(6),
        values[6],
    ));
    assert(filled_up_to(text, values, 8) == replace_all(
        filled_up_to(text, values, 7),
        mark(7),
        values[7],
    ));
    assert(filled_up_to(text, values, 9) == replace_all(
        filled_up_to(text, values, 8),
        mark(8),
        values[8],
    ));
}

/// What stands around the marks of a module. A text is not looked into until it is
/// revealed, for which it is written out once more.
proof fn lemma_native_tostring_evasion()
    ensures
        contains(NATIVE_TOSTRING_EVASION@, "let _eoka_seed = ("@ + mark(8) + " >>> 0) || 1;"@),
{
    reveal_strlit(
        r#"
const _eoka_spoofed = new WeakMap();
const _eoka_origToString = Function.prototype.toString;
const _eoka_mark = (fn, name) => {
    if (typeof fn === 'function') {
        _eoka_spoofed.set(fn, name || fn.name || '');
    }
    return fn;
};
const _eoka_toStringProxy = new Proxy(_eoka_origToString, {
    apply(target, thisArg, args) {
        if (typeof thisArg === 'function' && _eoka_spoofed.has(thisArg)) {
            const name = _eoka_spoofed.get(thisArg);
            return name ? 'function ' + name + '() { [native code] }'
                        : 'function () { [native code] }';
        }
        if (thisArg === _eoka_toStringProxy) {
            return 'function toString() { [native code] }';
        }
        return Reflect.apply(target, thisArg, args);
    }
});
Function.prototype.toString = _eoka_toStringProxy;
_eoka_mark(Function.prototype.toString, 'toString');

// Deterministic per-session PRNG (LCG), seeded from Rust.
const _eoka_lcg = (s) => (Math.imul(s >>> 0, 1664525) + 1013904223) >>> 0;
let _eoka_seed = (__EOKA_NOISE_SEED__ >>> 0) || 1;
const _eoka_rand = () => {
    _eoka_seed = _eoka_lcg(_eoka_seed);
    return _eoka_seed / 4294967296;
};
"#,
    );
    reveal_strlit("let _eoka_seed = (");
    reveal_strlit(" >>> 0) || 1;");
    reveal_strlit("__EOKA_NOISE_SEED__");
    let text = NATIVE_TOSTRING_EVASION@;
    let found = "let _eoka_seed = ("@ + mark(8) + " >>> 0) || 1;"@;
    assert(text.subrange(1024, 1074) =~= found);
    assert(occurs_at(text, found, 1024));
}

/// What stands around the marks of a module. A text is not looked into until it is
/// revealed, for which it is written out once more.
proof fn lemma_navigator_props_evasion()
    ensures
        contains(NAVIGATOR_PROPS_EVASION@, "languages: { get: () => Object.freeze("@ + mark(2) + ") },"@),
        contains(NAVIGATOR_PROPS_EVASION@, "language: { get: () => '"@ + mark(3) + "' },"@),
        contains(NAVIGATOR_PROPS_EVASION@, "platform: { get: () => '"@ + mark(1) + "' },"@),
        contains(NAVIGATOR_PROPS_EVASION@, "hardwareConcurrency: { get: () => "@ + mark(4) + " },"@),
        contains(NAVIGATOR_PROPS_EVASION@, "deviceMemory: { get: () => "@ + mark(5) + " },"@),
{
    reveal_strlit(
        r#"
const navProps = {
    languages: { get: () => Object.freeze(__EOKA_LANGUAGES__) },
    language: { get: () => '__EOKA_LANGUAGE__' },
    platform: { get: () => '__EOKA_PLATFORM__' },
    vendor: { get: () => 'Google Inc.' },
    hardwareConcurrency: { get: () => __EOKA_HW__ },
    deviceMemory: { get: () => __EOKA_MEM__ },
    maxTouchPoints: { get: () => 0 }
};
for (const [prop, desc] of Object.entries(navProps)) {
    _eoka_mark(desc.get, 'get ' + prop);
    Object.defineProperty(Navigator.prototype, prop, {
        ...desc,
        configurable: true,
        enumerable: true
    });
}
"#,
    );
    reveal_strlit("languages: { get: () => Object.freeze(");
    reveal_strlit(") },");
    reveal_strlit("__EOKA_LANGUAGES__");
    reveal_strlit("language: { get: () => '");
    reveal_strlit("' },");
    reveal_strlit("__EOKA_LANGUAGE__");
    reveal_strlit("platform: { get: () => '");
    reveal_strlit("__EOKA_PLATFORM__");
    reveal_strlit("hardwareConcurrency: { get: () => ");
    reveal_strlit(" },");
    reveal_strlit("__EOKA_HW__");
    reveal_strlit("deviceMemory: { get: () => ");
    reveal_strlit("__EOKA_MEM__");
    let text = NAVIGATOR_PROPS_EVASION@;
    let found = "languages: { get: () => Object.freeze("@ + mark(2) + ") },"@;
    assert(text.subrange(24, 84) =~= found);
    assert(occurs_at(text, found, 24));
    let found = "language: { get: () => '"@ + mark(3) + "' },"@;
    assert(text.subrange(89, 134) =~= found);
    assert(occurs_at(text, found, 89));
    let found = "platform: { get: () => '"@ + mark(1) + "' },"@;
    assert(text.subrange(139, 184) =~= found);
    assert(occurs_at(text, found, 139));
    let found = "hardwareConcurrency: { get: () => "@ + mark(4) + " },"@;
    assert(text.subrange(231, 279) =~= found);
    assert(occurs_at(text, found, 231));
    let found = "deviceMemory: { get: () => "@ + mark(5) + " },"@;
    assert(text.subrange(284, 326) =~= found);
    assert(occurs_at(text, found, 284));
}

/// What stands around the marks of a module. A text is not looked into until it is
/// revealed, for which it is written out once more.
proof fn lemma_timezone_evasion()
    ensures
        contains(TIMEZONE_EVASION@, "const targetTimezone = '"@ + mark(0) + "';"@),
{
    reveal_strlit(
        r#"
// Ensure Intl.DateTimeFormat returns consistent timezone
const targetTimezone = '__EOKA_TIMEZONE__';
const origDateTimeFormat = Intl.DateTimeFormat;

Intl.DateTimeFormat = _eoka_mark(function DateTimeFormat(locales, options) {
    if (!options) options = {};
    if (!options.timeZone) options.timeZone = targetTimezone;
    return new origDateTimeFormat(locales, options);
}, 'DateTimeFormat');
Intl.DateTimeFormat.prototype = origDateTimeFormat.prototype;
Intl.DateTimeFormat.supportedLocalesOf = origDateTimeFormat.supportedLocalesOf;

// Override Date.prototype.getTimezoneOffset to match the target timezone.
// Precompute offsets for Jan and Jul to handle DST, avoiding per-call
// toLocaleString() which is ~10x slower than native and timing-detectable.
{
    const _origGetTZO = Date.prototype.getTimezoneOffset;
    function _calcOffset(date) {
        const utcStr = date.toLocaleString('en-US', { timeZone: 'UTC' });
        const tzStr = date.toLocaleString('en-US', { timeZone: targetTimezone });
        return (new Date(utcStr) - new Date(tzStr)) / 60000;
    }
    const year = new Date().getFullYear();
    const janOffset = _calcOffset(new Date(year, 0, 15));
    const julOffset = _calcOffset(new Date(year, 6, 15));
    // Standard offset is the larger value (more positive = further west)
    const stdOffset = Math.max(janOffset, julOffset);
    const dstOffset = Math.min(janOffset, julOffset);
    // If offsets differ, this timezone observes DST
    const hasDST = janOffset !== julOffset;
    // Which months are DST depends on hemisphere: if Jul is the smaller
    // offset, DST is northern-hemisphere (Mar-Nov); otherwise southern.
    const dstIsJul = julOffset < janOffset;

    Date.prototype.getTimezoneOffset = _eoka_mark(function getTimezoneOffset() {
        if (!hasDST) return stdOffset;
        // Quick month-based check — accurate for the vast majority of dates.
        const m = this.getUTCMonth();
        const isDST = dstIsJul ? (m >= 2 && m <= 10) : (m <= 2 || m >= 10);
        return isDST ? dstOffset : stdOffset;
    }, 'getTimezoneOffset');
}
"#,
    );
    reveal_strlit("const targetTimezone = '");
    reveal_strlit("';");
    reveal_strlit("__EOKA_TIMEZONE__");
    let text = TIMEZONE_EVASION@;
    let found = "const targetTimezone = '"@ + mark(0) + "';"@;
    assert(text.subrange(59, 102) =~= found);
    assert(occurs_at(text, found, 59));
}

/// What stands around the marks of a module. A text is not looked into until it is
/// revealed, for which it is written out once more.
proof fn lemma_fingerprint_evasion()
    ensures
        contains(FINGERPRINT_EVASION@, "if (p === 37445) return '"@ + mark(6) + "';"@),
        contains(FINGERPRINT_EVASION@, "if (p === 37446) return '"@ + mark(7) + "';"@),
        contains(FINGERPRINT_EVASION@, "let s = ("@ + mark(8) + " >>> 0) || 1;"@),
        contains(FINGERPRINT_EVASION@, "let s = (("@ + mark(8) + " >>> 0) ^ (ch >>> 0)) >>> 0 || 1;"@),
{
    reveal_strlit(
        r#"
const _eoka_spoofWebGL = (proto) => {
    const orig = proto.getParameter;
    proto.getParameter = _eoka_mark(function getParameter(p) {
        if (p === 37445) return '__EOKA_WEBGL_VENDOR__';
        if (p === 37446) return '__EOKA_WEBGL_RENDERER__';
        return orig.call(this, p);
    }, 'getParameter');
};
_eoka_spoofWebGL(WebGLRenderingContext.prototype);
if (typeof WebGL2RenderingContext !== 'undefined') _eoka_spoofWebGL(WebGL2RenderingContext.prototype);

// Canvas noise — deterministic, applied on a temp copy.
const _eoka_noiseCanvas = (canvas) => {
    const w = canvas.width | 0, h = canvas.height | 0;
    if (w <= 0 || h <= 0) return canvas;
    try {
        const tmp = document.createElement('canvas');
        tmp.width = w; tmp.height = h;
        const tctx = tmp.getContext('2d');
        tctx.drawImage(canvas, 0, 0);
        const img = tctx.getImageData(0, 0, w, h);
        const data = img.data;
        let s = (__EOKA_NOISE_SEED__ >>> 0) || 1;
        for (let i = 0; i < data.length; i += 4) {
            s = _eoka_lcg(s);
            data[i] = data[i] ^ (s & 1);
        }
        tctx.putImageData(img, 0, 0);
        return tmp;
    } catch(e) {
        return canvas;
    }
};

const origToDataURL = HTMLCanvasElement.prototype.toDataURL;
HTMLCanvasElement.prototype.toDataURL = _eoka_mark(function toDataURL(...args) {
    return origToDataURL.apply(_eoka_noiseCanvas(this), args);
}, 'toDataURL');

const origToBlob = HTMLCanvasElement.prototype.toBlob;
if (origToBlob) {
    HTMLCanvasElement.prototype.toBlob = _eoka_mark(function toBlob(...args) {
        return origToBlob.apply(_eoka_noiseCanvas(this), args);
    }, 'toBlob');
}

// Audio noise — deterministic, applied once per channel buffer.
const origGetChannelData = AudioBuffer.prototype.getChannelData;
const _eoka_audioSeen = new WeakSet();
AudioBuffer.prototype.getChannelData = _eoka_mark(function getChannelData(ch) {
    const d = origGetChannelData.call(this, ch);
    if (!_eoka_audioSeen.has(d)) {
        let s = ((__EOKA_NOISE_SEED__ >>> 0) ^ (ch >>> 0)) >>> 0 || 1;
        for (let i = 0; i < d.length; i += 100) {
            s = _eoka_lcg(s);
            d[i] += (s / 4294967296 - 0.5) * 0.0001;
        }
        _eoka_audioSeen.add(d);
    }
    return d;
}, 'getChannelData');
"#,
    );
    reveal_strlit("if (p === 37445) return '");
    reveal_strlit("';");
    reveal_strlit("__EOKA_WEBGL_VENDOR__");
    reveal_strlit("if (p === 37446) return '");
    reveal_strlit("__EOKA_WEBGL_RENDERER__");
    reveal_strlit("let s = (");
    reveal_strlit(" >>> 0) || 1;");
    reveal_strlit("__EOKA_NOISE_SEED__");
    reveal_strlit("let s = ((");
    reveal_strlit(" >>> 0) ^ (ch >>> 0)) >>> 0 || 1;");
    let text = FINGERPRINT_EVASION@;
    let found = "if (p === 37445) return '"@ + mark(6) + "';"@;
    assert(text.subrange(147, 195) =~= found);
    assert(occurs_at(text, found, 147));
    let found = "if (p === 37446) return '"@ + mark(7) + "';"@;
    assert(text.subrange(204, 254) =~= found);
    assert(occurs_at(text, found, 204));
    let found = "let s = ("@ + mark(8) + " >>> 0) || 1;"@;
    assert(text.subrange(939, 980) =~= found);
    assert(occurs_at(text, found, 939));
    let found = "let s = (("@ + mark(8) + " >>> 0) ^ (ch >>> 0)) >>> 0 || 1;"@;
    assert(text.subrange(2022, 2084) =~= found);
    assert(occurs_at(text, found, 2022));
}

/// What stands around the marks is apart from them.
proof fn lemma_surroundings()
    ensures
        apart_from_marks("let _eoka_seed = ("@),
        apart_from_marks(" >>> 0) || 1;"@),
        apart_from_marks("languages: { get: () => Object.freeze("@),
        apart_from_marks(") },"@),
        apart_from_marks("language: { get: () => '"@),
        apart_from_marks("' },"@),
        apart_from_marks("platform: { get: () => '"@),
        apart_from_marks("hardwareConcurrency: { get: () => "@),
        apart_from_marks(" },"@),
        apart_from_marks("deviceMemory: { get: () => "@),
        apart_from_marks("const targetTimezone = '"@),
        apart_from_marks("';"@),
        apart_from_marks("if (p === 37445) return '"@),
        apart_from_marks("if (p === 37446) return '"@),
        apart_from_marks("let s = ("@),
        apart_from_marks("let s = (("@),
        apart_from_marks(" >>> 0) ^ (ch >>> 0)) >>> 0 || 1;"@),
{
    reveal_strlit("let _eoka_seed = (");
    reveal_strlit(" >>> 0) || 1;");
    reveal_strlit("languages: { get: () => Object.freeze(");
    reveal_strlit(") },");
    reveal_strlit("language: { get: () => '");
    reveal_strlit("' },");
    reveal_strlit("platform: { get: () => '");
    reveal_strlit("hardwareConcurrency: { get: () => ");
    reveal_strlit(" },");
    reveal_strlit("deviceMemory: { get: () => ");
    reveal_strlit("const targetTimezone = '");
    reveal_strlit("';");
    reveal_strlit("if (p === 37445) return '");
    reveal_strlit("if (p === 37446) return '");
    reveal_strlit("let s = (");
    reveal_strlit("let s = ((");
    reveal_strlit(" >>> 0) ^ (ch >>> 0)) >>> 0 || 1;");
}

/// The script tells pages the identity that it was made for: the time zone that is
/// configured or else the identity's own, its languages and the first of them, its
/// platform, its processors, its memory and its seed, each in its own place. The
/// values may not hold a mark themselves.
pub proof fn law_script_tells_identity(
    config: StealthConfig,
    fp: FingerprintView,
    timezone: Seq<char>,
)
    requires
        timezone == (match config.timezone {
            Some(tz) => tz@,
            None => fp.timezone,
        }),
        unmarked(escaped(timezone)),
        unmarked(literal_list(fp.languages)),
        fp.languages.len() > 0,
        unmarked(escaped(fp.languages[0])),
    ensures
        contains(
            script_for(config, fp),
            "const targetTimezone = '"@ + escaped(timezone) + "';"@,
        ),
        contains(
            script_for(config, fp),
            "languages: { get: () => Object.freeze("@ + literal_list(fp.languages) + ") },"@,
        ),
        contains(
            script_for(config, fp),
            "language: { get: () => '"@ + escaped(fp.languages[0]) + "' },"@,
        ),
        fp.platform == Platform::MacOS ==> contains(
            script_for(config, fp),
            "platform: { get: () => '"@ + "MacIntel"@ + "' },"@,
        ),
        fp.platform == Platform::Windows ==> contains(
            script_for(config, fp),
            "platform: { get: () => '"@ + "Win32"@ + "' },"@,
        ),
        fp.platform == Platform::Linux ==> contains(
            script_for(config, fp),
            "platform: { get: () => '"@ + "Linux x86_64"@ + "' },"@,
        ),
        contains(
            script_for(config, fp),
            "hardwareConcurrency: { get: () => "@ + digits(fp.hardware_concurrency as nat)
                + " },"@,
        ),
        contains(
            script_for(config, fp),
            "deviceMemory: { get: () => "@ + digits(fp.device_memory as nat) + " },"@,
        ),
        contains(
            script_for(config, fp),
            "let _eoka_seed = ("@ + digits(fp.noise_seed as nat) + " >>> 0) || 1;"@,
        ),
{
    let aggressive = config.aggressive_cdp_evasion;
    let perturbing = config.webgl_spoof || config.canvas_spoof || config.audio_spoof;
    let list = modules(aggressive, perturbing);
    let text = wrapped(list);
    let values = values_of(timezone, fp);
    lemma_filled(text, timezone, fp);
    lemma_surroundings();
    lemma_native_tostring_evasion();
    lemma_navigator_props_evasion();
    lemma_timezone_evasion();
    lemma_digits_unmarked(fp.hardware_concurrency as nat);
    lemma_digits_unmarked(fp.device_memory as nat);
    lemma_digits_unmarked(fp.noise_seed as nat);
    lemma_platform_words(fp.platform);
    assert(list[0] == NATIVE_TOSTRING_EVASION@);
    assert(list[5] == NAVIGATOR_PROPS_EVASION@);
    assert(list[13] == TIMEZONE_EVASION@);
    let around = ("const targetTimezone = '"@, "';"@);
    lemma_module_stands(aggressive, perturbing, 13, around.0 + mark(0) + around.1);
    lemma_place(text, values, 0, around.0, around.1, 9);
    let around = ("platform: { get: () => '"@, "' },"@);
    lemma_module_stands(aggressive, perturbing, 5, around.0 + mark(1) + around.1);
    lemma_place(text, values, 1, around.0, around.1, 9);
    let around = ("languages: { get: () => Object.freeze("@, ") },"@);
    lemma_module_stands(aggressive, perturbing, 5, around.0 + mark(2) + around.1);
    lemma_place(text, values, 2, around.0, around.1, 9);
    let around = ("language: { get: () => '"@, "' },"@);
    lemma_module_stands(aggressive, perturbing, 5, around.0 + mark(3) + around.1);
    lemma_place(text, values, 3, around.0, around.1, 9);
    let around = ("hardwareConcurrency: { get: () => "@, " },"@);
    lemma_module_stands(aggressive, perturbing, 5, around.0 + mark(4) + around.1);
    lemma_place(text, values, 4, around.0, around.1, 9);
    let around = ("deviceMemory: { get: () => "@, " },"@);
    lemma_module_stands(aggressive, perturbing, 5, around.0 + mark(5) + around.1);
    lemma_place(text, values, 5, around.0, around.1, 9);
    let around = ("let _eoka_seed = ("@, " >>> 0) || 1;"@);
    lemma_module_stands(aggressive, perturbing, 0, around.0 + mark(8) + around.1);
    lemma_place(text, values, 8, around.0, around.1, 9);
}

/// What `navigator.platform` says stands in a literal as it is.
proof fn lemma_platform_words(platform: Platform)
    ensures
        platform == Platform::MacOS ==> escaped(nav_platform_of(platform)) == "MacIntel"@,
        platform == Platform::Windows ==> escaped(nav_platform_of(platform)) == "Win32"@,
        platform == Platform::Linux ==> escaped(nav_platform_of(platform)) == "Linux x86_64"@,
        unmarked(escaped(nav_platform_of(platform))),
{
    reveal_strlit("MacIntel");
    reveal_strlit("Win32");
    reveal_strlit("Linux x86_64");
    reveal_strlit("__EOKA_");
    law_plain_text_stays(nav_platform_of(platform));
    let word = nav_platform_of(platform);
    if contains(word, "__EOKA_"@) {
        let k = choose|k: int| occurs_at(word, "__EOKA_"@, k);
        let found = word.subrange(k, k + 7);
        assert(found[0] == '_' && found[1] == '_');
        assert(word[k] == '_' && word[k + 1] == '_');
    }
}

/// Where graphics, canvas or audio are masked, pages read the maker of the identity's
/// graphics card as the vendor and the card itself as the renderer, and the
/// perturbations start from the identity's seed.
pub proof fn law_script_tells_graphics(config: StealthConfig, fp: FingerprintView)
    requires
        config.webgl_spoof || config.canvas_spoof || config.audio_spoof,
        unmarked(escaped(fp.webgl_vendor)),
        unmarked(escaped(fp.webgl_renderer)),
    ensures
        contains(
            script_for(config, fp),
            "if (p === 37445) return '"@ + escaped(fp.webgl_vendor) + "';"@,
        ),
        contains(
            script_for(config, fp),
            "if (p === 37446) return '"@ + escaped(fp.webgl_renderer) + "';"@,
        ),
        contains(
            script_for(config, fp),
            "let s = ("@ + digits(fp.noise_seed as nat) + " >>> 0) || 1;"@,
        ),
        contains(
            script_for(config, fp),
            "let s = (("@ + digits(fp.noise_seed as nat) + " >>> 0) ^ (ch >>> 0)) >>> 0 || 1;"@,
        ),
{
    let aggressive = config.aggressive_cdp_evasion;
    let timezone = match config.timezone {
        Some(tz) => tz@,
        None => fp.timezone,
    };
    let list = modules(aggressive, true);
    let text = wrapped(list);
    let values = values_of(timezone, fp);
    let last = list.len() - 1;
    lemma_filled(text, timezone, fp);
    lemma_surroundings();
    lemma_fingerprint_evasion();
    lemma_digits_unmarked(fp.noise_seed as nat);
    assert(list[last] == FINGERPRINT_EVASION@);
    let around = ("if (p === 37445) return '"@, "';"@);
    lemma_module_stands(aggressive, true, last, around.0 + mark(6) + around.1);
    lemma_place(text, values, 6, around.0, around.1, 9);
    let around = ("if (p === 37446) return '"@, "';"@);
    lemma_module_stands(aggressive, true, last, around.0 + mark(7) + around.1);
    lemma_place(text, values, 7, around.0, around.1, 9);
    let around = ("let s = ("@, " >>> 0) || 1;"@);
    lemma_module_stands(aggressive, true, last, around.0 + mark(8) + around.1);
    lemma_place(text, values, 8, around.0, around.1, 9);
    let around = ("let s = (("@, " >>> 0) ^ (ch >>> 0)) >>> 0 || 1;"@);
    lemma_module_stands(aggressive, true, last, around.0 + mark(8) + around.1);
    lemma_place(text, values, 8, around.0, around.1, 9);
}

/// A list of languages is written as an array of literals, one behind the other.
pub proof fn law_language_list(languages: Seq<Seq<char>>, more: Seq<char>)
    ensures
        literal_list(Seq::empty()) == "["@ + "]"@,
        literal_list(seq![more]) == "['"@ + escaped(more) + "']"@,
        languages.len() > 0 ==> literal_list(languages.push(more)) == literal_list(
            languages,
        ).drop_last() + ",'"@ + escaped(more) + "']"@,
{
    reveal_strlit("[");
    reveal_strlit("]");
    reveal_strlit("'");
    reveal_strlit(",");
    reveal_strlit("['");
    reveal_strlit("']");
    reveal_strlit(",'");
    let f = |t: Seq<char>| literal(t);
    assert(Seq::<Seq<char>>::empty().map_values(f) =~= Seq::empty());
    assert(literal_list(Seq::empty()) =~= "["@ + "]"@);
    assert(seq![more].map_values(f) =~= seq![literal(more)]);
    assert(literal_list(seq![more]) =~= "['"@ + escaped(more) + "']"@);
    if languages.len() > 0 {
        let all = languages.push(more).map_values(f);
        assert(all.drop_last() =~= languages.map_values(f));
        assert(all.last() == literal(more));
        assert(literal_list(languages.push(more)) =~= literal_list(languages).drop_last() + ",'"@
            + escaped(more) + "']"@);
    }
}

} // verus!
