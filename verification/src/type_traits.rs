use vstd::prelude::*;

verus! {

/// Whether `c` opens the field list of a value's debug text.
pub open spec fn opens_fields(c: char) -> bool {
    c == '(' || c == '{'
}

/// Whether `c` is the blank that separates a name from its field list.
pub open spec fn is_blank(c: char) -> bool {
    c == ' ' || c == '\t' || c == '\n' || c == '\r'
}

/// The part of `raw` before its first `(` or `{`; all of `raw` when it has
/// neither.
pub open spec fn before_fields(raw: Seq<char>) -> Seq<char>
    decreases raw.len(),
{
    if raw.len() == 0 {
        raw
    } else if opens_fields(raw[0]) {
        Seq::empty()
    } else {
        seq![raw[0]] + before_fields(raw.drop_first())
    }
}

/// `s` without the blanks at its end.
pub open spec fn trim_end(s: Seq<char>) -> Seq<char>
    decreases s.len(),
{
    if s.len() > 0 && is_blank(s.last()) {
        trim_end(s.drop_last())
    } else {
        s
    }
}

/// The name that starts a value's debug text: the text before its first
/// `(` or `{`, without the blanks in front of that bracket.
pub open spec fn spec_struct_name(raw: Seq<char>) -> Seq<char> {
    trim_end(before_fields(raw))
}

/// Blanks added after a text that does not end in a blank are trimmed away
/// again.
proof fn lemma_trim_blanks(name: Seq<char>, blanks: Seq<char>)
    requires
        name.len() == 0 || !is_blank(name.last()),
        forall|i: int| 0 <= i < blanks.len() ==> is_blank(#[trigger] blanks[i]),
    ensures
        trim_end(name + blanks) == name,
    decreases blanks.len(),
{
    if blanks.len() == 0 {
        assert(name + blanks =~= name);
    } else {
        assert((name + blanks).drop_last() =~= name + blanks.drop_last());
        lemma_trim_blanks(name, blanks.drop_last());
    }
}

/// Appends `c` to `s` with `String::push`.
#[verifier::external_body]
fn push_char(s: &mut String, c: char)
    ensures
        final(s)@ == old(s)@.push(c),
{
    s.push(c);
}

/// The debug text of `value`, as `format!("{:?}", value)` writes it.
#[verifier::external_body]
fn debug_text<T: std::fmt::Debug + ?Sized>(value: &T) -> String {
    format!("{:?}", value)
}

/// The name that starts a value's debug text: `raw` cut before its first
/// `(` or `{` and the blanks in front of it, so that `Ball { mass: 1.0 }`
/// gives `Ball` and `Pair(1, 2)` gives `Pair`.
pub fn struct_name(raw: &str) -> (name: String)
    ensures
        name@ == spec_struct_name(raw@),
{
    let mut name = String::new();
    // Blanks seen since the last character kept: they belong to the name
    // only if more of the name follows them.
    let mut pending: Vec<char> = Vec::new();
    let mut stopped = false;
    proof {
        assert(raw@.skip(0) =~= raw@);
    }
    for c in it: raw.chars()
        invariant
            it.seq() == raw@,
            stopped ==> name@ == spec_struct_name(raw@),
            !stopped ==> (name@ + pending@) + before_fields(raw@.skip(it.index() as int))
                == before_fields(raw@),
            !stopped ==> name@.len() == 0 || !is_blank(name@.last()),
            !stopped ==> forall|i: int| 0 <= i < pending@.len() ==> is_blank(#[trigger] pending@[i]),
    {
        let ghost rest = raw@.skip(it.index() as int);
        proof {
            assert(rest[0] == c);
            assert(rest.drop_first() =~= raw@.skip(it.index() + 1));
        }
        if !stopped {
            if c == '(' || c == '{' {
                stopped = true;
                proof {
                    assert(name@ + pending@ + Seq::<char>::empty() =~= name@ + pending@);
                    lemma_trim_blanks(name@, pending@);
                }
            } else if c == ' ' || c == '\t' || c == '\n' || c == '\r' {
                let ghost before = pending@;
                pending.push(c);
                proof {
                    assert((name@ + before) + (seq![c] + before_fields(rest.drop_first())) =~= (
                    name@ + pending@) + before_fields(rest.drop_first()));
                }
            } else {
                let ghost before = name@ + pending@;
                let mut k: usize = 0;
                while k < pending.len()
                    invariant
                        0 <= k <= pending@.len(),
                        name@ + pending@.skip(k as int) == before,
                    decreases pending@.len() - k,
                {
                    let ghost old_name = name@;
                    push_char(&mut name, pending[k]);
                    proof {
                        assert(old_name + pending@.skip(k as int) =~= name@ + pending@.skip(
                            k + 1,
                        ));
                    }
                    k += 1;
                }
                proof {
                    assert(name@ =~= before) by {
                        assert(pending@.skip(k as int) =~= Seq::<char>::empty());
                        assert(name@ + Seq::<char>::empty() =~= name@);
                    }
                }
                pending = Vec::new();
                push_char(&mut name, c);
                proof {
                    assert(before + (seq![c] + before_fields(rest.drop_first())) =~= (name@
                        + pending@) + before_fields(rest.drop_first()));
                }
            }
        }
    }
    proof {
        if !stopped {
            assert(raw@.skip(raw@.len() as int) =~= Seq::<char>::empty());
            assert((name@ + pending@) + Seq::<char>::empty() =~= name@ + pending@);
            lemma_trim_blanks(name@, pending@);
        }
    }
    name
}

/// Methods that describe a value by its type.
pub trait MetaMethods {
    /// The type's name, taken from the start of the value's debug text.
    fn to_string(&self) -> (name: String)
        where Self: std::fmt::Debug,
        ensures
            forall|i: int| 0 <= i < name@.len() ==> !opens_fields(#[trigger] name@[i]),
            name@.len() == 0 || !is_blank(name@.last()),
    {
        let raw = debug_text(self);
        let name = struct_name(raw.as_str());
        proof {
            lemma_struct_name_has_no_opener(raw@);
        }
        name
    }
}

/// The text before the first `(` or `{` holds neither, and is a prefix of
/// the text: all of it when it holds neither.
proof fn lemma_before_fields(raw: Seq<char>)
    ensures
        forall|i: int|
            0 <= i < before_fields(raw).len() ==> !opens_fields(#[trigger] before_fields(raw)[i]),
        before_fields(raw).len() <= raw.len(),
        before_fields(raw) == raw.take(before_fields(raw).len() as int),
        (forall|i: int| 0 <= i < raw.len() ==> !opens_fields(#[trigger] raw[i])) ==> before_fields(
            raw,
        ) == raw,
    decreases raw.len(),
{
    if raw.len() > 0 && !opens_fields(raw[0]) {
        lemma_before_fields(raw.drop_first());
        let rest = before_fields(raw.drop_first());
        assert forall|i: int| 0 <= i < before_fields(raw).len() implies !opens_fields(
            #[trigger] before_fields(raw)[i],
        ) by {
            if i > 0 {
                assert(before_fields(raw)[i] == rest[i - 1]);
            }
        }
        assert(before_fields(raw) =~= raw.take(rest.len() as int + 1));
        if forall|i: int| 0 <= i < raw.len() ==> !opens_fields(#[trigger] raw[i]) {
            assert forall|i: int| 0 <= i < raw.drop_first().len() implies !opens_fields(
                #[trigger] raw.drop_first()[i],
            ) by {
                assert(!opens_fields(raw[i + 1]));
            }
            assert(before_fields(raw) =~= raw);
        }
    } else if raw.len() > 0 {
        assert(before_fields(raw) =~= raw.take(0));
    } else {
        assert(raw.take(0) =~= raw);
    }
}

/// Trimming keeps a prefix of the text, which does not end in a blank.
proof fn lemma_trim_end(s: Seq<char>)
    ensures
        trim_end(s).len() <= s.len(),
        trim_end(s) == s.take(trim_end(s).len() as int),
        trim_end(s).len() == 0 || !is_blank(trim_end(s).last()),
    decreases s.len(),
{
    if s.len() > 0 && is_blank(s.last()) {
        lemma_trim_end(s.drop_last());
        assert(s.drop_last().take(trim_end(s).len() as int) =~= s.take(trim_end(s).len() as int));
    } else {
        assert(s.take(s.len() as int) =~= s);
    }
}

/// A struct name holds no `(` or `{` and does not end in a blank.
pub proof fn lemma_struct_name_has_no_opener(raw: Seq<char>)
    ensures
        forall|i: int|
            0 <= i < spec_struct_name(raw).len() ==> !opens_fields(
                #[trigger] spec_struct_name(raw)[i],
            ),
        spec_struct_name(raw).len() == 0 || !is_blank(spec_struct_name(raw).last()),
{
    lemma_before_fields(raw);
    lemma_trim_end(before_fields(raw));
    let b = before_fields(raw);
    assert forall|i: int| 0 <= i < spec_struct_name(raw).len() implies !opens_fields(
        #[trigger] spec_struct_name(raw)[i],
    ) by {
        assert(spec_struct_name(raw)[i] == b.take(trim_end(b).len() as int)[i]);
        assert(b[i] == b.take(trim_end(b).len() as int)[i]);
    }
}

/// The struct name is the start of the debug text: a prefix of it, and all
/// of it, less blanks at its end, when the text holds no `(` or `{`.
pub proof fn lemma_struct_name_is_prefix(raw: Seq<char>)
    ensures
        spec_struct_name(raw).len() <= raw.len(),
        spec_struct_name(raw) == raw.take(spec_struct_name(raw).len() as int),
        (forall|i: int| 0 <= i < raw.len() ==> !opens_fields(#[trigger] raw[i])) ==> spec_struct_name(
            raw,
        ) == trim_end(raw),
{
    lemma_before_fields(raw);
    let b = before_fields(raw);
    lemma_trim_end(b);
    let n = trim_end(b).len() as int;
    assert(raw.take(n) =~= b.take(n)) by {
        assert forall|i: int| 0 <= i < n implies raw.take(n)[i] == b.take(n)[i] by {
            assert(b[i] == raw.take(b.len() as int)[i]);
        }
    }
}

} // verus!
