use crate::codec::parts::{
    lemma_parse_session, lemma_parse_skill, parse_session, parse_skill, put_session, put_skill,
    session_form, skill_form, take_session, take_skill,
};
use crate::codec::wire::{
    holds_at, lemma_holds_at_split, lemma_parse_u64, parse_u64, put_u64, take_u64, text_fits,
    u64_form,
};
use crate::model::{skill_views, Skill, SkillView, TrainingSession};
use vstd::prelude::*;

verus! {

/// The sessions one after the other.
pub open spec fn sessions_body(items: Seq<TrainingSession>) -> Seq<u8>
    decreases items.len(),
{
    if items.len() == 0 {
        Seq::empty()
    } else {
        sessions_body(items.drop_last()) + session_form(items.last())
    }
}

pub open spec fn sessions_fit(items: Seq<TrainingSession>) -> bool {
    items.len() <= u64::MAX
}

pub open spec fn sessions_form(items: Seq<TrainingSession>) -> Seq<u8> {
    u64_form(items.len() as u64) + sessions_body(items)
}

/// The first `count` sessions that stand from `at` on, and where they end.
pub open spec fn parse_session_run(bytes: Seq<u8>, at: int, count: nat) -> Option<
    (Seq<TrainingSession>, int),
>
    decreases count,
{
    if count == 0 {
        if 0 <= at <= bytes.len() {
            Some((Seq::empty(), at))
        } else {
            None
        }
    } else {
        match parse_session_run(bytes, at, (count - 1) as nat) {
            Some((earlier, next)) => match parse_session(bytes, next) {
                Some((last, end)) => Some((earlier.push(last), end)),
                None => None,
            },
            None => None,
        }
    }
}

pub open spec fn parse_sessions(bytes: Seq<u8>, at: int) -> Option<(Seq<TrainingSession>, int)> {
    match parse_u64(bytes, at) {
        Some((count, start)) => parse_session_run(bytes, start, count as nat),
        None => None,
    }
}

pub proof fn lemma_parse_session_run(bytes: Seq<u8>, at: int, items: Seq<TrainingSession>)
    requires
        holds_at(bytes, at, sessions_body(items)),
    ensures
        parse_session_run(bytes, at, items.len()) == Some(
            (items, at + sessions_body(items).len()),
        ),
    decreases items.len(),
{
    if items.len() > 0 {
        let earlier = items.drop_last();
        lemma_holds_at_split(bytes, at, sessions_body(earlier), session_form(items.last()));
        lemma_parse_session_run(bytes, at, earlier);
        lemma_parse_session(bytes, at + sessions_body(earlier).len(), items.last());
        assert(earlier.push(items.last()) =~= items);
    }
}

/// Once a run cannot be parsed, no longer run can.
pub proof fn lemma_session_run_stops(bytes: Seq<u8>, at: int, reached: nat, count: nat)
    requires
        reached <= count,
        parse_session_run(bytes, at, reached) is None,
    ensures
        parse_session_run(bytes, at, count) is None,
    decreases count,
{
    if reached < count {
        lemma_session_run_stops(bytes, at, reached, (count - 1) as nat);
    }
}

pub proof fn lemma_parse_sessions(bytes: Seq<u8>, at: int, items: Seq<TrainingSession>)
    requires
        sessions_fit(items),
        holds_at(bytes, at, sessions_form(items)),
    ensures
        parse_sessions(bytes, at) == Some((items, at + sessions_form(items).len())),
{
    lemma_holds_at_split(bytes, at, u64_form(items.len() as u64), sessions_body(items));
    lemma_parse_u64(bytes, at, items.len() as u64);
    lemma_parse_session_run(bytes, at + 8, items);
}

pub fn put_sessions(out: &mut Vec<u8>, items: &Vec<TrainingSession>)
    ensures
        final(out)@ == old(out)@ + sessions_form(items@),
        sessions_fit(items@),
{
    put_u64(out, items.len() as u64);
    let ghost head = out@;
    let mut i: usize = 0;
    while i < items.len()
        invariant
            i <= items@.len(),
            out@ == head + sessions_body(items@.subrange(0, i as int)),
        decreases items@.len() - i,
    {
        put_session(out, &items[i]);
        proof {
            let upto = items@.subrange(0, i + 1);
            assert(upto.drop_last() =~= items@.subrange(0, i as int));
            assert(out@ =~= head + sessions_body(upto));
        }
        i += 1;
    }
    assert(items@.subrange(0, i as int) =~= items@);
    assert(out@ =~= old(out)@ + sessions_form(items@));
}

pub fn take_sessions(bytes: &[u8], at: usize) -> (got: Option<(Vec<TrainingSession>, usize)>)
    requires
        at <= bytes@.len(),
    ensures
        match got {
            Some((items, next)) => parse_sessions(bytes@, at as int) == Some(
                (items@, next as int),
            ) && next <= bytes@.len(),
            None => parse_sessions(bytes@, at as int) is None,
        },
{
    let (count, start) = take_u64(bytes, at)?;
    let mut items: Vec<TrainingSession> = Vec::new();
    let mut next: usize = start;
    let mut done: u64 = 0;
    while done < count
        invariant
            done <= count,
            next <= bytes@.len(),
            parse_u64(bytes@, at as int) == Some((count, start as int)),
            parse_session_run(bytes@, start as int, done as nat) == Some((items@, next as int)),
        decreases count - done,
    {
        match take_session(bytes, next) {
            Some((session, end)) => {
                items.push(session);
                next = end;
                done += 1;
            },
            None => {
                proof {
                    lemma_session_run_stops(bytes@, start as int, (done + 1) as nat, count as nat);
                }
                return None;
            },
        }
    }
    Some((items, next))
}

/// The skills one after the other.
pub open spec fn skills_body(items: Seq<SkillView>) -> Seq<u8>
    decreases items.len(),
{
    if items.len() == 0 {
        Seq::empty()
    } else {
        skills_body(items.drop_last()) + skill_form(items.last())
    }
}

pub open spec fn skills_fit(items: Seq<SkillView>) -> bool {
    &&& items.len() <= u64::MAX
    &&& forall|i: int| 0 <= i < items.len() ==> text_fits(#[trigger] items[i].name)
}

pub open spec fn skills_form(items: Seq<SkillView>) -> Seq<u8> {
    u64_form(items.len() as u64) + skills_body(items)
}

/// The first `count` skills that stand from `at` on, and where they end.
pub open spec fn parse_skill_run(bytes: Seq<u8>, at: int, count: nat) -> Option<
    (Seq<SkillView>, int),
>
    decreases count,
{
    if count == 0 {
        if 0 <= at <= bytes.len() {
            Some((Seq::empty(), at))
        } else {
            None
        }
    } else {
        match parse_skill_run(bytes, at, (count - 1) as nat) {
            Some((earlier, next)) => match parse_skill(bytes, next) {
                Some((last, end)) => Some((earlier.push(last), end)),
                None => None,
            },
            None => None,
        }
    }
}

pub open spec fn parse_skills(bytes: Seq<u8>, at: int) -> Option<(Seq<SkillView>, int)> {
    match parse_u64(bytes, at) {
        Some((count, start)) => parse_skill_run(bytes, start, count as nat),
        None => None,
    }
}

pub proof fn lemma_parse_skill_run(bytes: Seq<u8>, at: int, items: Seq<SkillView>)
    requires
        forall|i: int| 0 <= i < items.len() ==> text_fits(#[trigger] items[i].name),
        holds_at(bytes, at, skills_body(items)),
    ensures
        parse_skill_run(bytes, at, items.len()) == Some((items, at + skills_body(items).len())),
    decreases items.len(),
{
    if items.len() > 0 {
        let earlier = items.drop_last();
        assert forall|i: int| 0 <= i < earlier.len() implies text_fits(
            #[trigger] earlier[i].name,
        ) by {
            assert(earlier[i] == items[i]);
        }
        lemma_holds_at_split(bytes, at, skills_body(earlier), skill_form(items.last()));
        lemma_parse_skill_run(bytes, at, earlier);
        assert(text_fits(items[items.len() - 1].name));
        lemma_parse_skill(bytes, at + skills_body(earlier).len(), items.last());
        assert(earlier.push(items.last()) =~= items);
    }
}

/// Once a run cannot be parsed, no longer run can.
pub proof fn lemma_skill_run_stops(bytes: Seq<u8>, at: int, reached: nat, count: nat)
    requires
        reached <= count,
        parse_skill_run(bytes, at, reached) is None,
    ensures
        parse_skill_run(bytes, at, count) is None,
    decreases count,
{
    if reached < count {
        lemma_skill_run_stops(bytes, at, reached, (count - 1) as nat);
    }
}

pub proof fn lemma_parse_skills(bytes: Seq<u8>, at: int, items: Seq<SkillView>)
    requires
        skills_fit(items),
        holds_at(bytes, at, skills_form(items)),
    ensures
        parse_skills(bytes, at) == Some((items, at + skills_form(items).len())),
{
    lemma_holds_at_split(bytes, at, u64_form(items.len() as u64), skills_body(items));
    lemma_parse_u64(bytes, at, items.len() as u64);
    lemma_parse_skill_run(bytes, at + 8, items);
}

pub fn put_skills(out: &mut Vec<u8>, items: &Vec<Skill>)
    ensures
        final(out)@ == old(out)@ + skills_form(skill_views(items@)),
        skills_fit(skill_views(items@)),
{
    put_u64(out, items.len() as u64);
    let ghost head = out@;
    let ghost views = skill_views(items@);
    let mut i: usize = 0;
    while i < items.len()
        invariant
            i <= items@.len(),
            views == skill_views(items@),
            out@ == head + skills_body(views.subrange(0, i as int)),
            forall|j: int| 0 <= j < i ==> text_fits(#[trigger] views[j].name),
        decreases items@.len() - i,
    {
        put_skill(out, &items[i]);
        proof {
            let upto = views.subrange(0, i + 1);
            assert(upto.drop_last() =~= views.subrange(0, i as int));
            assert(upto.last() == items@[i as int]@);
            assert(out@ =~= head + skills_body(upto));
        }
        i += 1;
    }
    assert(views.subrange(0, i as int) =~= views);
    assert(out@ =~= old(out)@ + skills_form(views));
}

pub fn take_skills(bytes: &[u8], at: usize) -> (got: Option<(Vec<Skill>, usize)>)
    requires
        at <= bytes@.len(),
    ensures
        match got {
            Some((items, next)) => parse_skills(bytes@, at as int) == Some(
                (skill_views(items@), next as int),
            ) && next <= bytes@.len(),
            None => parse_skills(bytes@, at as int) is None,
        },
{
    let (count, start) = take_u64(bytes, at)?;
    let mut items: Vec<Skill> = Vec::new();
    let mut next: usize = start;
    let mut done: u64 = 0;
    assert(skill_views(items@) =~= Seq::empty());
    while done < count
        invariant
            done <= count,
            next <= bytes@.len(),
            parse_u64(bytes@, at as int) == Some((count, start as int)),
            parse_skill_run(bytes@, start as int, done as nat) == Some(
                (skill_views(items@), next as int),
            ),
        decreases count - done,
    {
        match take_skill(bytes, next) {
            Some((skill, end)) => {
                let ghost earlier = skill_views(items@);
                items.push(skill);
                assert(skill_views(items@) =~= earlier.push(skill@));
                next = end;
                done += 1;
            },
            None => {
                proof {
                    lemma_skill_run_stops(bytes@, start as int, (done + 1) as nat, count as nat);
                }
                return None;
            },
        }
    }
    Some((items, next))
}

} // verus!
