use vstd::prelude::*;

pub mod pt;

verus! {

// ============================================================================
// Trimming
// ============================================================================

/// The whitespace characters a delimited-input line may be padded with.
pub open spec fn is_space(c: char) -> bool {
    c == ' ' || c == '\t' || c == '\r' || c == '\n'
}

pub open spec fn drop_leading(s: Seq<char>) -> Seq<char>
    decreases s.len(),
{
    if s.len() > 0 && is_space(s[0]) {
        drop_leading(s.skip(1))
    } else {
        s
    }
}

pub open spec fn drop_trailing(s: Seq<char>) -> Seq<char>
    decreases s.len(),
{
    if s.len() > 0 && is_space(s.last()) {
        drop_trailing(s.drop_last())
    } else {
        s
    }
}

/// The text with its leading and trailing whitespace removed.
pub open spec fn trim_v(s: Seq<char>) -> Seq<char> {
    drop_trailing(drop_leading(s))
}

proof fn lemma_drop_leading_at(s: Seq<char>, k: int)
    requires
        0 <= k <= s.len(),
        forall|j: int| 0 <= j < k ==> is_space(s[j]),
        k == s.len() || !is_space(s[k]),
    ensures
        drop_leading(s) == s.skip(k),
    decreases k,
{
    if k == 0 {
        assert(s.skip(0) =~= s);
    } else {
        assert(is_space(s[0]));
        lemma_drop_leading_at(s.skip(1), k - 1);
        assert(s.skip(1).skip(k - 1) =~= s.skip(k));
    }
}

proof fn lemma_drop_trailing_at(s: Seq<char>, m: int)
    requires
        0 <= m <= s.len(),
        forall|j: int| m <= j < s.len() ==> is_space(s[j]),
        m == 0 || !is_space(s[m - 1]),
    ensures
        drop_trailing(s) == s.take(m),
    decreases s.len(),
{
    if m == s.len() {
        assert(s.take(m) =~= s);
    } else {
        assert(is_space(s.last()));
        lemma_drop_trailing_at(s.drop_last(), m);
        assert(s.drop_last().take(m) =~= s.take(m));
    }
}

fn is_space_char(c: char) -> (r: bool)
    ensures
        r == is_space(c),
{
    c == ' ' || c == '\t' || c == '\r' || c == '\n'
}

/// Removes leading and trailing whitespace, exactly as `trim_v` says.
pub fn trim_str(s: &str) -> (r: String)
    ensures
        r@ == trim_v(s@),
{
    let len = s.unicode_len();
    let mut st: usize = 0;
    while st < len && is_space_char(s.get_char(st))
        invariant
            len == s@.len(),
            st <= len,
            forall|j: int| 0 <= j < st ==> is_space(s@[j]),
        decreases len - st,
    {
        st += 1;
    }
    let mut en: usize = len;
    while en > st && is_space_char(s.get_char(en - 1))
        invariant
            len == s@.len(),
            st <= en <= len,
            forall|j: int| en <= j < len ==> is_space(s@[j]),
        decreases en,
    {
        en -= 1;
    }
    proof {
        lemma_drop_leading_at(s@, st as int);
        let mid = s@.skip(st as int);
        assert forall|j: int| en - st <= j < mid.len() implies is_space(mid[j]) by {
            assert(mid[j] == s@[j + st]);
        }
        if en > st {
            assert(!is_space(s@[en - 1]));
            assert(mid[en - st - 1] == s@[en - 1]);
        }
        lemma_drop_trailing_at(mid, en - st);
        assert(mid.take(en - st) =~= s@.subrange(st as int, en as int));
    }
    s.substring_char(st, en).to_owned()
}

// ============================================================================
// Field splitting
// ============================================================================

/// The state of a left-to-right comma split after consuming the first `i`
/// characters: the fields already closed by a comma, and the field still
/// being read.
pub open spec fn split_fold(s: Seq<char>, i: int) -> (Seq<Seq<char>>, Seq<char>)
    decreases i,
{
    if i <= 0 {
        (Seq::empty(), Seq::empty())
    } else {
        let prev = split_fold(s, i - 1);
        if s[i - 1] == ',' {
            (prev.0.push(prev.1), Seq::empty())
        } else {
            (prev.0, prev.1.push(s[i - 1]))
        }
    }
}

/// The comma-separated segments of the text, in order, empty ones kept.
pub open spec fn raw_fields(s: Seq<char>) -> Seq<Seq<char>> {
    let f = split_fold(s, s.len() as int);
    f.0.push(f.1)
}

/// Drops the empty segments.
pub open spec fn keep_nonempty(s: Seq<Seq<char>>) -> Seq<Seq<char>>
    decreases s.len(),
{
    if s.len() == 0 {
        Seq::empty()
    } else if s.last().len() != 0 {
        keep_nonempty(s.drop_last()).push(s.last())
    } else {
        keep_nonempty(s.drop_last())
    }
}

/// Trims every segment.
pub open spec fn trim_all(s: Seq<Seq<char>>) -> Seq<Seq<char>> {
    s.map_values(|t: Seq<char>| trim_v(t))
}

/// The fields of one input line: the line is trimmed, split at commas,
/// each segment trimmed, and empty segments dropped.
pub open spec fn clean_fields(s: Seq<char>) -> Seq<Seq<char>> {
    keep_nonempty(trim_all(raw_fields(trim_v(s))))
}

/// What one line of a delimited input file contributes: nothing for a
/// comment line (the trimmed line starts with '#'), otherwise its fields.
pub open spec fn spec_read_csv_line(s: Seq<char>) -> Option<Seq<Seq<char>>> {
    if trim_v(s).len() > 0 && trim_v(s)[0] == '#' {
        None
    } else {
        Some(clean_fields(s))
    }
}

/// Splits one line of a delimited input file into its fields, exactly as
/// `spec_read_csv_line` says; `None` for a comment line.
pub fn read_csv_line(line: &str) -> (r: Option<Vec<String>>)
    ensures
        match r {
            None => spec_read_csv_line(line@) is None,
            Some(fields) => spec_read_csv_line(line@) == Some(fields.deep_view()),
        },
{
    let trimmed = trim_str(line);
    let t = trimmed.as_str();
    let tlen = t.unicode_len();
    if tlen > 0 && t.get_char(0) == '#' {
        return None;
    }
    let ghost tv = t@;
    let mut fields: Vec<String> = Vec::new();
    let ghost raw: Seq<Seq<char>> = Seq::empty();
    let mut raw_tracked: Ghost<Seq<Seq<char>>> = Ghost(raw);
    let mut seg_start: usize = 0;
    let mut i: usize = 0;
    proof {
        assert(tv.subrange(0, 0) =~= Seq::<char>::empty());
        assert(trim_all(Seq::<Seq<char>>::empty()) =~= Seq::<Seq<char>>::empty());
        assert(fields.deep_view() =~= Seq::<Seq<char>>::empty());
    }
    while i < tlen
        invariant
            tlen == tv.len(),
            tv == t@,
            tv == trim_v(line@),
            seg_start <= i <= tlen,
            raw_tracked@ == split_fold(tv, i as int).0,
            tv.subrange(seg_start as int, i as int) == split_fold(tv, i as int).1,
            fields.deep_view() == keep_nonempty(trim_all(raw_tracked@)),
        decreases tlen - i,
    {
        let c = t.get_char(i);
        if c == ',' {
            let seg = t.substring_char(seg_start, i);
            let field = trim_str(seg);
            proof {
                let segv = tv.subrange(seg_start as int, i as int);
                let mapped = trim_all(raw_tracked@);
                let mapped2 = trim_all(raw_tracked@.push(segv));
                assert(mapped2 =~= mapped.push(trim_v(segv)));
                assert(mapped2.drop_last() =~= mapped);
                if trim_v(segv).len() != 0 {
                    assert(keep_nonempty(mapped2) == keep_nonempty(mapped).push(trim_v(segv)));
                } else {
                    assert(keep_nonempty(mapped2) == keep_nonempty(mapped));
                }
            }
            if !field.as_str().is_empty() {
                let ghost old_fields_dv = fields.deep_view();
                fields.push(field);
                proof {
                    assert(fields.deep_view() =~= old_fields_dv.push(
                        trim_v(tv.subrange(seg_start as int, i as int)),
                    ));
                }
            }
            proof {
                raw_tracked@ = raw_tracked@.push(tv.subrange(seg_start as int, i as int));
            }
            seg_start = i + 1;
            proof {
                assert(tv.subrange(seg_start as int, i as int + 1) =~= Seq::<char>::empty());
            }
        } else {
            proof {
                assert(tv.subrange(seg_start as int, i as int).push(tv[i as int]) =~= tv.subrange(
                    seg_start as int,
                    i as int + 1,
                ));
            }
        }
        i += 1;
    }
    let seg = t.substring_char(seg_start, tlen);
    let field = trim_str(seg);
    proof {
        let segv = tv.subrange(seg_start as int, tlen as int);
        assert(raw_fields(tv) == raw_tracked@.push(segv));
        let mapped = trim_all(raw_tracked@);
        let mapped2 = trim_all(raw_tracked@.push(segv));
        assert(mapped2 =~= mapped.push(trim_v(segv)));
        assert(mapped2.drop_last() =~= mapped);
        if trim_v(segv).len() != 0 {
            assert(keep_nonempty(mapped2) == keep_nonempty(mapped).push(trim_v(segv)));
        } else {
            assert(keep_nonempty(mapped2) == keep_nonempty(mapped));
        }
    }
    if !field.as_str().is_empty() {
        let ghost old_fields_dv = fields.deep_view();
        fields.push(field);
        proof {
            assert(fields.deep_view() =~= old_fields_dv.push(
                trim_v(tv.subrange(seg_start as int, tlen as int)),
            ));
        }
    }
    Some(fields)
}

} // verus!
