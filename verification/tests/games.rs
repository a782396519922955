use radium_textures::game::Game;

#[test]
fn games_have_their_names_and_files() {
    assert_eq!(Game::SkyrimSE.display_name(), "Skyrim SE");
    assert_eq!(Game::Fallout4.display_name(), "Fallout 4");
    assert_eq!(Game::SkyrimSE.exclusions_file(), "SkyrimSE_Exclusions.txt");
    assert_eq!(Game::Fallout4.exclusions_file(), "Fallout4_Exclusions.txt");
    assert_eq!(Game::SkyrimSE.archive_extension(), "bsa");
    assert_eq!(Game::Fallout4.archive_extension(), "ba2");
}

#[test]
fn toggle_gives_the_other_game() {
    assert_eq!(Game::SkyrimSE.toggle(), Game::Fallout4);
    assert_eq!(Game::Fallout4.toggle(), Game::SkyrimSE);
    assert_eq!(Game::SkyrimSE.toggle().toggle(), Game::SkyrimSE);
}

#[test]
fn first_game_is_the_default() {
    assert_eq!(Game::default(), Game::SkyrimSE);
}
