use lib::enemy::{a_vile_chase, EnemyEvent, GameMode, MobjInfo, RaiseInfo, S_VILE_HEAL1};
use lib::fixed::{Fixed, FRACUNIT};
use lib::level::MonsterLevel;
use lib::types::{Angle, MapObject, SfxEnum, MF_CORPSE, MF_SHOOTABLE, MF_SOLID};

const F: i32 = FRACUNIT;
const MT_TROOP: usize = 11;

fn info() -> MobjInfo {
    MobjInfo {
        seestate: 0,
        meleestate: 0,
        painsound: SfxEnum::sfx_None,
        deathsound: SfxEnum::sfx_None,
        radius: Fixed(20 * F),
        spawnstate: 7,
        missilestate: 0,
        seesound: SfxEnum::sfx_None,
        attacksound: SfxEnum::sfx_None,
        activesound: SfxEnum::sfx_None,
        speed: 0,
        mass: 100,
    }
}

fn vile_and_corpse() -> MonsterLevel {
    let vile = MapObject { type_: 3, x: Fixed(10 * F), y: Fixed(20 * F), ..MapObject::default() };
    let corpse = MapObject {
        type_: MT_TROOP,
        x: Fixed(100 * F),
        y: Fixed(20 * F),
        flags: MF_CORPSE,
        health: -5,
        target: Some(0),
        ..MapObject::default()
    };
    let mut lv = MonsterLevel::new(vec![vile, corpse], vec![info(); 40], GameMode::Commercial);
    lv.toward = Angle(0x4000_0000);
    lv.raise = RaiseInfo { raisestate: 400, height: Fixed(56 * F), flags: MF_SOLID | MF_SHOOTABLE, spawnhealth: 60 };
    lv
}

#[test]
fn arch_vile_raises_the_corpse_it_finds() {
    let mut lv = vile_and_corpse();
    lv.corpse = Some(1);
    a_vile_chase(0, &mut lv);
    assert_eq!(
        lv.log,
        vec![
            EnemyEvent::CorpseSearch { x: Fixed(10 * F), y: Fixed(20 * F), corpse: Some(1) },
            EnemyEvent::SetState { mobj: 0, state: S_VILE_HEAL1 },
            EnemyEvent::Sound { origin: Some(1), sfx: SfxEnum::sfx_slop },
            EnemyEvent::SetState { mobj: 1, state: 400 },
        ]
    );
    assert_eq!(lv.mobjs[0].angle, Angle(0x4000_0000));
    let raised = lv.mobjs[1];
    assert_eq!(raised.height, Fixed(56 * F));
    assert_eq!(raised.radius, Fixed(20 * F));
    assert_eq!(raised.flags, MF_SOLID | MF_SHOOTABLE);
    assert_eq!(raised.health, 60);
    assert_eq!(raised.target, None);
}

#[test]
fn arch_vile_without_a_corpse_chases() {
    let mut lv = vile_and_corpse();
    a_vile_chase(0, &mut lv);
    assert_eq!(lv.log[0], EnemyEvent::CorpseSearch { x: Fixed(10 * F), y: Fixed(20 * F), corpse: None });
    assert_eq!(lv.log[1], EnemyEvent::LookForPlayers { mobj: 0, allaround: true, found: false });
    assert_eq!(lv.log[2], EnemyEvent::SetState { mobj: 0, state: 7 });
    assert_eq!(lv.log.len(), 3);
    assert_eq!(lv.mobjs[1].health, -5);
}
