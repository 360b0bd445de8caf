use std::collections::BTreeSet;

use glyph_bot::aiode::supporter_response;
use glyph_bot::error::Error;
use glyph_bot::event_handler::{handle_member_update, DiscordEventHandler, MembershipEvent};
use glyph_bot::model::{AiodeSupporter, MirrorAction, Targets};
use glyph_bot::resync::{
    batches, refresh_aiode_supporters, BatchInsert, Member, PageRequest, SupporterScan, BATCH_SIZE,
    PAGE_SIZE,
};
use glyph_bot::util::OptFmt;

const ROLE_A: u64 = 77;
const ROLE_B: u64 = 78;
const GUILD: u64 = 1000;

fn event(old: Option<Vec<u64>>, new: Option<Vec<u64>>, roles: Vec<u64>) -> MembershipEvent {
    MembershipEvent { user_id: 42, guild_id: GUILD, old_roles: old, new_roles: new, roles }
}

fn apply(mirror: &mut BTreeSet<u64>, action: MirrorAction) {
    match action {
        MirrorAction::Upsert(id) => {
            mirror.insert(id);
        }
        MirrorAction::Delete(id) => {
            mirror.remove(&id);
        }
        MirrorAction::Nothing => {}
    }
}

fn targets() -> Targets {
    Targets { guild_id: Some(GUILD), role_id: Some(ROLE_A) }
}

#[test]
fn no_snapshots_and_role_held_upserts() {
    let e = event(None, None, vec![ROLE_A]);
    assert_eq!(handle_member_update(ROLE_A, &e), MirrorAction::Upsert(42));
}

#[test]
fn no_snapshots_and_role_missing_deletes() {
    let e = event(None, None, vec![ROLE_B]);
    assert_eq!(handle_member_update(ROLE_A, &e), MirrorAction::Delete(42));
}

#[test]
fn only_new_snapshot_uses_current_roles() {
    let e = event(None, Some(vec![]), vec![ROLE_A]);
    assert_eq!(handle_member_update(ROLE_A, &e), MirrorAction::Upsert(42));
    let e = event(None, Some(vec![ROLE_A]), vec![]);
    assert_eq!(handle_member_update(ROLE_A, &e), MirrorAction::Delete(42));
}

#[test]
fn role_lost_deletes() {
    let e = event(Some(vec![ROLE_A]), Some(vec![]), vec![]);
    assert_eq!(handle_member_update(ROLE_A, &e), MirrorAction::Delete(42));
}

#[test]
fn role_gained_upserts() {
    let e = event(Some(vec![ROLE_B]), Some(vec![ROLE_B, ROLE_A]), vec![ROLE_B, ROLE_A]);
    assert_eq!(handle_member_update(ROLE_A, &e), MirrorAction::Upsert(42));
}

#[test]
fn unchanged_role_is_a_no_op() {
    let e = event(Some(vec![ROLE_A]), Some(vec![ROLE_A, ROLE_B]), vec![ROLE_A, ROLE_B]);
    assert_eq!(handle_member_update(ROLE_A, &e), MirrorAction::Nothing);
    let e = event(Some(vec![]), Some(vec![ROLE_B]), vec![ROLE_B]);
    assert_eq!(handle_member_update(ROLE_A, &e), MirrorAction::Nothing);
}

#[test]
fn events_outside_the_target_are_ignored() {
    let handler = DiscordEventHandler;
    let mut e = event(None, None, vec![ROLE_A]);
    assert_eq!(handler.guild_member_update(&targets(), &e), MirrorAction::Upsert(42));
    e.guild_id = GUILD + 1;
    assert_eq!(handler.guild_member_update(&targets(), &e), MirrorAction::Nothing);
    e.guild_id = GUILD;
    let unset = Targets { guild_id: Some(GUILD), role_id: None };
    assert_eq!(handler.guild_member_update(&unset, &e), MirrorAction::Nothing);
    let unset = Targets { guild_id: None, role_id: Some(ROLE_A) };
    assert_eq!(handler.guild_member_update(&unset, &e), MirrorAction::Nothing);
}

#[test]
fn replaying_an_event_changes_nothing_more() {
    let handler = DiscordEventHandler;
    for e in [
        event(None, None, vec![ROLE_A]),
        event(Some(vec![ROLE_A]), Some(vec![]), vec![]),
        event(Some(vec![]), Some(vec![ROLE_A]), vec![ROLE_A]),
    ] {
        let mut once: BTreeSet<u64> = [1, 42].into_iter().collect();
        apply(&mut once, handler.guild_member_update(&targets(), &e));
        let mut twice = once.clone();
        apply(&mut twice, handler.guild_member_update(&targets(), &e));
        assert_eq!(once, twice);
    }
}

fn directory(n: u64) -> Vec<Member> {
    (1..=n)
        .map(|id| Member {
            user_id: id,
            roles: if id % 3 == 0 { vec![ROLE_B, ROLE_A] } else { vec![ROLE_B] },
        })
        .collect()
}

fn serve(dir: &[Member], req: PageRequest) -> Vec<Member> {
    dir.iter()
        .filter(|m| req.after.map_or(true, |a| m.user_id > a))
        .take(req.limit as usize)
        .cloned()
        .collect()
}

fn run_scan(dir: &[Member], limit: u64) -> (usize, Vec<u64>) {
    let mut scan = SupporterScan::new(ROLE_A, limit);
    let mut pages = 0;
    while let Some(req) = scan.next_request() {
        let page = serve(dir, req);
        scan.absorb_page(&page);
        pages += 1;
    }
    assert!(scan.is_done());
    (pages, scan.supporters().clone())
}

#[test]
fn pagination_visits_every_page_once() {
    for n in [0u64, 1, 7, 10, 11, 29, 30] {
        let dir = directory(n);
        let (pages, supporters) = run_scan(&dir, 10);
        assert_eq!(pages as u64, n / 10 + 1);
        if n % 10 != 0 {
            assert_eq!(pages as u64, (n + 9) / 10);
        }
        let expected: Vec<u64> = (1..=n).filter(|id| id % 3 == 0).collect();
        assert_eq!(supporters, expected);
    }
}

#[test]
fn pagination_asks_with_the_last_member_as_cursor() {
    let dir = directory(12);
    let mut scan = SupporterScan::new(ROLE_A, 5);
    assert_eq!(scan.next_request(), Some(PageRequest { after: None, limit: 5 }));
    scan.absorb_page(&serve(&dir, PageRequest { after: None, limit: 5 }));
    assert_eq!(scan.next_request(), Some(PageRequest { after: Some(5), limit: 5 }));
    scan.absorb_page(&serve(&dir, PageRequest { after: Some(5), limit: 5 }));
    assert_eq!(scan.next_request(), Some(PageRequest { after: Some(10), limit: 5 }));
    scan.absorb_page(&serve(&dir, PageRequest { after: Some(10), limit: 5 }));
    assert_eq!(scan.next_request(), None);
    assert_eq!(scan.supporters(), &vec![3, 6, 9, 12]);
}

#[test]
fn resync_is_a_quiet_no_op_without_targets() {
    assert!(refresh_aiode_supporters(&Targets { guild_id: None, role_id: Some(1) }, PAGE_SIZE).is_none());
    assert!(refresh_aiode_supporters(&Targets { guild_id: Some(1), role_id: None }, PAGE_SIZE).is_none());
    let scan = refresh_aiode_supporters(&targets(), PAGE_SIZE).unwrap();
    assert_eq!(scan.next_request(), Some(PageRequest { after: None, limit: 500 }));
}

#[test]
fn ten_thousand_ids_make_three_batches() {
    let ids: Vec<u64> = (1..=10_000).collect();
    let b = batches(&ids, BATCH_SIZE);
    assert_eq!(b.len(), 3);
    assert_eq!(b[0].len(), 4096);
    assert_eq!(b[1].len(), 4096);
    assert_eq!(b[2].len(), 1808);
    assert_eq!(b[0][0], 1);
    assert_eq!(b[1][0], 4097);
    assert_eq!(b[2][1807], 10_000);
}

#[test]
fn batches_of_nothing_and_of_an_exact_multiple() {
    assert!(batches(&vec![], 4).is_empty());
    let b = batches(&vec![1, 2, 3, 4, 5, 6, 7, 8], 4);
    assert_eq!(b, vec![vec![1, 2, 3, 4], vec![5, 6, 7, 8]]);
}

#[test]
fn failed_third_batch_keeps_the_first_two() {
    let ids: Vec<u64> = (1..=10_000).collect();
    let mut insert = BatchInsert::new(&ids, BATCH_SIZE);
    let mut mirror: BTreeSet<u64> = BTreeSet::new();
    let mut attempt = 0;
    while let Some(batch) = insert.next_batch() {
        attempt += 1;
        if attempt == 3 {
            insert.on_failed();
        } else {
            let batch = batch.clone();
            let before = mirror.len();
            mirror.extend(batch.iter().copied());
            insert.on_committed((mirror.len() - before) as u64);
        }
    }
    assert_eq!(insert.committed(), 2);
    assert_eq!(insert.inserted(), 8192);
    let expected: BTreeSet<u64> = (1..=8192).collect();
    assert_eq!(mirror, expected);
}

#[test]
fn inserted_count_saturates() {
    let mut insert = BatchInsert::new(&vec![1, 2], 1);
    insert.on_committed(u64::MAX);
    insert.on_committed(5);
    assert_eq!(insert.inserted(), u64::MAX);
    assert!(insert.next_batch().is_none());
}

#[test]
fn error_codes_per_kind() {
    let all = [
        (Error::DatabaseConnectionError(String::from("pool")), 500_001),
        (Error::QueryError(String::from("q")), 500_002),
        (Error::SerenityError(String::from("http")), 500_003),
        (Error::SerialisationError(String::from("json")), 500_004),
    ];
    for (e, code) in all {
        assert_eq!(e.error_code(), code);
        assert_eq!(e.status_code(), 500);
        assert!(e.is_internal_server_error());
    }
}

#[test]
fn status_of_a_supporter_and_of_a_stranger() {
    let r = supporter_response(Some(AiodeSupporter { user_id: 9, creation_timestamp: 1_700_000_000_000 }));
    assert!(r.is_supporter);
    assert_eq!(r.supporter_since, Some(1_700_000_000_000));
    let r = supporter_response(None);
    assert!(!r.is_supporter);
    assert_eq!(r.supporter_since, None);
}

#[test]
fn optional_values_render_as_dash() {
    assert_eq!(OptFmt(Some(String::from("abc"))).render(), "abc");
    assert_eq!(OptFmt::<String>(None).render(), "-");
}
