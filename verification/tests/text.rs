use dice_encounter::actions::Side;
use dice_encounter::combat::{damage_line, roll_line};
use dice_encounter::dice_pools::{DiceType, Icon};
use dice_encounter::powers::{Power, PowerIcon};
use dice_encounter::state::{pause_command, AppState, MenuButton, PauseCommand, PauseState};
use dice_encounter::text::{bonus_text, decimal};

#[test]
fn bonus_is_written_with_a_plus_sign() {
    assert_eq!(bonus_text(0), "+0");
    assert_eq!(bonus_text(2), "+2");
    assert_eq!(bonus_text(255), "+255");
    assert_eq!(decimal(90), "90");
}

#[test]
fn damage_line_names_who_was_hurt() {
    assert_eq!(damage_line(Side::Challenger, 6), Some("Player took 6".to_string()));
    assert_eq!(damage_line(Side::Player, 12), Some("Target took 12".to_string()));
    assert_eq!(damage_line(Side::Challenger, 0), None);
    assert_eq!(damage_line(Side::Player, 0), None);
}

#[test]
fn roll_line_tells_the_roll() {
    assert_eq!(roll_line(0), "Rolled a 0");
    assert_eq!(roll_line(12), "Rolled a 12");
    assert_eq!(roll_line(255), "Rolled a 255");
}

#[test]
fn dice_are_drawn_from_the_icon_sheet() {
    assert_eq!(DiceType::D2.icon(), Icon::Atlas(0));
    assert_eq!(DiceType::D3.icon(), Icon::Atlas(1));
    assert_eq!(DiceType::D4.icon(), Icon::Atlas(2));
    assert_eq!(DiceType::D6.icon(), Icon::Atlas(3));
    assert_eq!(DiceType::D8.icon(), Icon::Atlas(4));
    assert_eq!(DiceType::D12.icon(), Icon::Atlas(5));
    assert_eq!(DiceType::Static { value: 3 }.icon(), Icon::Bonus(3));
}

#[test]
fn powers_are_drawn_by_kind() {
    assert_eq!(Power::SplitDice.icon(), PowerIcon::Plain(Icon::Atlas(8)));
    assert_eq!(Power::Advantage.icon(), PowerIcon::Plain(Icon::Atlas(9)));
    assert_eq!(Power::AddDice(DiceType::D3).icon(), PowerIcon::Plus(Icon::Atlas(1)));
    assert_eq!(
        Power::AddDice(DiceType::Static { value: 4 }).icon(),
        PowerIcon::Plus(Icon::Bonus(4))
    );
    assert_eq!(Power::StaticBonus(2).icon(), PowerIcon::Plain(Icon::Bonus(2)));
}

#[test]
fn menu_buttons_lead_to_their_screens() {
    assert_eq!(MenuButton::Start.leads_to(), AppState::InGame);
    assert_eq!(MenuButton::Credits.leads_to(), AppState::Credits);
}

#[test]
fn keys_of_the_pause_screen() {
    assert_eq!(
        pause_command(true, false, PauseState::Inactive),
        PauseCommand::Switch(PauseState::Paused)
    );
    assert_eq!(
        pause_command(true, true, PauseState::Paused),
        PauseCommand::Switch(PauseState::Inactive)
    );
    assert_eq!(pause_command(false, true, PauseState::Paused), PauseCommand::Leave);
    assert_eq!(pause_command(false, true, PauseState::Inactive), PauseCommand::Stay);
    assert_eq!(pause_command(false, false, PauseState::Paused), PauseCommand::Stay);
}
