//! The line generator: the text lines that list the animation events of one
//! position for the animation installer.

use vstd::prelude::*;

verus! {

/// The piece of `s` between `from` and `to`, as a list of one text, or of none
/// where the piece is empty.
pub open spec fn piece(s: Seq<char>, from: int, to: int) -> Seq<Seq<char>> {
    if from < to {
        seq![s.subrange(from, to)]
    } else {
        Seq::empty()
    }
}

/// The non-empty pieces of `s` between commas, from position `i` on, where the
/// piece that is being read began at `start`.
pub open spec fn pieces_from(s: Seq<char>, start: int, i: int) -> Seq<Seq<char>>
    decreases s.len() - i,
{
    if i >= s.len() {
        piece(s, start, s.len() as int)
    } else if s[i] == ',' {
        piece(s, start, i) + pieces_from(s, i + 1, i + 1)
    } else {
        pieces_from(s, start, i + 1)
    }
}

/// The companion objects that a comma-separated list names: its pieces
/// between commas, in order, without the empty ones.
pub open spec fn companion_objects(list: Seq<char>) -> Seq<Seq<char>> {
    pieces_from(list, 0, 0)
}

/// Splits a comma-separated list of companion objects and drops empty pieces.
pub fn split_companions(list: &str) -> (r: Vec<String>)
    ensures
        r.deep_view() == companion_objects(list@),
        forall|j: int| 0 <= j < r@.len() ==> (#[trigger] r@[j])@.len() > 0,
{
    let n = list.unicode_len();
    let mut r: Vec<String> = Vec::new();
    let mut start: usize = 0;
    let mut i: usize = 0;
    proof {
        assert(r.deep_view() + pieces_from(list@, 0, 0) =~= companion_objects(list@));
    }
    while i < n
        invariant
            n == list@.len(),
            start <= i <= n,
            r.deep_view() + pieces_from(list@, start as int, i as int) == companion_objects(list@),
            forall|j: int| 0 <= j < r@.len() ==> (#[trigger] r@[j])@.len() > 0,
        decreases n - i,
    {
        let c = list.get_char(i);
        if c == ',' {
            if start < i {
                let ghost before = r.deep_view();
                r.push(String::from_str(list.substring_char(start, i)));
                proof {
                    assert(r.deep_view() =~= before + piece(list@, start as int, i as int));
                    assert(r.deep_view() + pieces_from(list@, i + 1, i + 1) =~= before
                        + pieces_from(list@, start as int, i as int));
                }
            }
            start = i + 1;
        }
        i += 1;
    }
    if start < n {
        let ghost before = r.deep_view();
        r.push(String::from_str(list.substring_char(start, n)));
        proof {
            assert(r.deep_view() =~= before + piece(list@, start as int, n as int));
        }
    } else {
        proof {
            assert(r.deep_view() + pieces_from(list@, start as int, n as int) =~= r.deep_view());
        }
    }
    r
}

/// The companion objects as they end a line: each after one space.
pub open spec fn objects_suffix(objects: Seq<Seq<char>>) -> Seq<char>
    decreases objects.len(),
{
    if objects.len() == 0 {
        Seq::empty()
    } else {
        objects_suffix(objects.drop_last()) + " "@ + objects.last()
    }
}

/// The flags of a line: nothing where there are neither options nor companion
/// objects, else `" -"`, then `"o,"` where there are objects, then the options.
pub open spec fn flags_segment(options: Seq<char>, has_objects: bool) -> Seq<char> {
    if options.len() == 0 && !has_objects {
        Seq::empty()
    } else if has_objects {
        " -"@ + "o,"@ + options
    } else {
        " -"@ + options
    }
}

/// One line: the type code, the flags, the namespaced event as the
/// animation's name, the namespaced event again as the stem of its file, and
/// the companion objects.
pub open spec fn fnis_line(
    anim_type: Seq<char>,
    event: Seq<char>,
    hash: Seq<char>,
    options: Seq<char>,
    objects: Seq<Seq<char>>,
) -> Seq<char> {
    anim_type + flags_segment(options, objects.len() > 0) + " "@ + hash + event + " "@ + hash
        + event + ".hkx"@ + objects_suffix(objects)
}

/// Writes one line of the list.
pub fn make_fnis_line(
    anim_type: &str,
    event: &str,
    hash: &str,
    options: &str,
    objects: &Vec<String>,
) -> (line: String)
    ensures
        line@ == fnis_line(anim_type@, event@, hash@, options@, objects.deep_view()),
{
    let mut line = String::from_str(anim_type);
    if !(options.is_empty() && objects.len() == 0) {
        line.append(" -");
        if objects.len() > 0 {
            line.append("o,");
        }
        line.append(options);
    }
    proof {
        assert(line@ =~= anim_type@ + flags_segment(options@, objects.deep_view().len() > 0));
    }
    line.append(" ");
    line.append(hash);
    line.append(event);
    line.append(" ");
    line.append(hash);
    line.append(event);
    line.append(".hkx");
    let ghost head = line@;
    let mut i: usize = 0;
    proof {
        assert(objects.deep_view().take(0) =~= Seq::<Seq<char>>::empty());
        assert(line@ =~= head + objects_suffix(objects.deep_view().take(0)));
    }
    while i < objects.len()
        invariant
            i <= objects@.len(),
            line@ == head + objects_suffix(objects.deep_view().take(i as int)),
        decreases objects@.len() - i,
    {
        line.append(" ");
        line.append(objects[i].as_str());
        i += 1;
        proof {
            let all = objects.deep_view();
            assert(all.take(i as int).drop_last() =~= all.take(i - 1));
            assert(all.take(i as int).last() == objects@[i - 1]@);
            assert(line@ =~= head + objects_suffix(all.take(i as int)));
        }
    }
    proof {
        assert(objects.deep_view().take(i as int) =~= objects.deep_view());
        assert(line@ =~= fnis_line(anim_type@, event@, hash@, options@, objects.deep_view()));
    }
    line
}

/// The type code of line `i` of `count`: basic for a single event, else start
/// for the first and continue for the others.
pub open spec fn line_type(count: int, i: int) -> Seq<char> {
    if count == 1 {
        "b"@
    } else if i == 0 {
        "s"@
    } else {
        "+"@
    }
}

/// The options of line `i` of `count`. A single event has the option `a` where
/// the stage has a fixed length. In a chain the first line has `a`, the last
/// has `a,Tn` where the stage has a fixed length, and no other line has any.
pub open spec fn line_options(count: int, i: int, fixed_len: bool) -> Seq<char> {
    if count == 1 {
        if fixed_len {
            "a"@
        } else {
            Seq::empty()
        }
    } else if i == 0 {
        "a"@
    } else if fixed_len && i == count - 1 {
        "a,Tn"@
    } else {
        Seq::empty()
    }
}

/// The lines of one position: one for each of its events, in order.
pub open spec fn fnis_lines(
    events: Seq<Seq<char>>,
    hash: Seq<char>,
    fixed_len: bool,
    objects: Seq<Seq<char>>,
) -> Seq<Seq<char>> {
    Seq::new(
        events.len(),
        |i: int|
            fnis_line(
                line_type(events.len() as int, i),
                events[i],
                hash,
                line_options(events.len() as int, i, fixed_len),
                objects,
            ),
    )
}

/// Generates the lines of the events of one position, under the namespace
/// `hash`, with the companion objects that `anim_obj` lists between commas.
pub fn make_fnis_lines(events: &Vec<String>, hash: &str, fixed_len: bool, anim_obj: &str) -> (r:
    Vec<String>)
    ensures
        r.deep_view() == fnis_lines(
            events.deep_view(),
            hash@,
            fixed_len,
            companion_objects(anim_obj@),
        ),
{
    let objects = split_companions(anim_obj);
    let n = events.len();
    let mut r: Vec<String> = Vec::new();
    let mut i: usize = 0;
    let ghost want = fnis_lines(
        events.deep_view(),
        hash@,
        fixed_len,
        companion_objects(anim_obj@),
    );
    while i < n
        invariant
            n == events@.len(),
            i <= n,
            r@.len() == i,
            objects.deep_view() == companion_objects(anim_obj@),
            want == fnis_lines(
                events.deep_view(),
                hash@,
                fixed_len,
                companion_objects(anim_obj@),
            ),
            forall|j: int| 0 <= j < i ==> (#[trigger] r@[j])@ == want[j],
        decreases n - i,
    {
        let anim_type = if n == 1 {
            "b"
        } else if i == 0 {
            "s"
        } else {
            "+"
        };
        let line = if n == 1 {
            if fixed_len {
                make_fnis_line(anim_type, events[i].as_str(), hash, "a", &objects)
            } else {
                let none = String::new();
                make_fnis_line(anim_type, events[i].as_str(), hash, none.as_str(), &objects)
            }
        } else if i == 0 {
            make_fnis_line(anim_type, events[i].as_str(), hash, "a", &objects)
        } else if fixed_len && i == n - 1 {
            make_fnis_line(anim_type, events[i].as_str(), hash, "a,Tn", &objects)
        } else {
            let none = String::new();
            make_fnis_line(anim_type, events[i].as_str(), hash, none.as_str(), &objects)
        };
        proof {
            assert(events.deep_view()[i as int] == events@[i as int]@);
        }
        r.push(line);
        i += 1;
    }
    proof {
        assert(r.deep_view() =~= want);
    }
    r
}

/// A single event gives one line, a chain of `n` events gives `n`, and in a
/// chain no line between the first and the last carries options; without
/// companion objects such a line has no flags at all.
pub proof fn lemma_line_count_and_options(
    events: Seq<Seq<char>>,
    hash: Seq<char>,
    fixed_len: bool,
    objects: Seq<Seq<char>>,
)
    ensures
        fnis_lines(events, hash, fixed_len, objects).len() == events.len(),
        forall|i: int|
            0 < i < events.len() - 1 ==> (#[trigger] line_options(
                events.len() as int,
                i,
                fixed_len,
            )).len() == 0,
        !fixed_len && events.len() > 1 ==> line_options(
            events.len() as int,
            events.len() - 1,
            fixed_len,
        ).len() == 0,
        forall|i: int|
            0 < i < events.len() - 1 && objects.len() == 0 ==> (#[trigger] fnis_lines(
                events,
                hash,
                fixed_len,
                objects,
            )[i]) == "+"@ + " "@ + hash + events[i] + " "@ + hash + events[i] + ".hkx"@,
{
    assert forall|i: int| 0 < i < events.len() - 1 && objects.len() == 0 implies (
    #[trigger] fnis_lines(events, hash, fixed_len, objects)[i]) == "+"@ + " "@ + hash + events[i]
        + " "@ + hash + events[i] + ".hkx"@ by {
        assert(objects_suffix(objects) =~= Seq::<char>::empty());
        assert(fnis_lines(events, hash, fixed_len, objects)[i] =~= "+"@ + " "@ + hash + events[i]
            + " "@ + hash + events[i] + ".hkx"@);
    }
}

} // verus!
