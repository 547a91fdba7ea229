//! The parameterized statements the persistence gateway executes. The texts
//! live with the library so that the cache, the flows and the statements that
//! feed them stay in one place; the boundary code binds and runs them.

use vstd::prelude::*;

verus! {

/// Create the tables on first start.
pub const CREATE_TABLES: &'static str = "
    CREATE TABLE  IF NOT EXISTS    DiscordUsers
    (
        pk_discordId           INTEGER  PRIMARY KEY,
        fk_currentCharacter    INTEGER, -- Can't be NOT NULL due to first registration edge case

        FOREIGN KEY (fk_currentCharacter)
        REFERENCES Characters (pk_CharacterId)
    );

    CREATE TABLE  IF NOT EXISTS    Characters
    (
        pk_CharacterId    INTEGER  PRIMARY KEY,
        fk_discordId      INTEGER  NOT NULL,
        pk_name           TEXT     NOT NULL,
        species           TEXT     NOT NULL,
        backstory         TEXT     NOT NULL,

        FOREIGN KEY (fk_discordId)
        REFERENCES DiscordUsers (pk_discordId)
    );
";

/// Add a character. Binds: owner id, name, species, backstory; the character
/// id is assigned as one more than the highest assigned so far.
pub const ADD_CHARACTER: &'static str = "
    INSERT INTO Characters ( pk_characterId, fk_discordId, pk_name, species, backstory )
    VALUES (
        (SELECT IFNULL(MAX(pk_characterId), 0) + 1 FROM Characters),
        ?1,
        ?2,
        ?3,
        ?4
    )
";

/// Select a character by owner id. Binds: owner id.
pub const SELECT_BY_OWNER_ID: &'static str = "
    SELECT *
    FROM Characters
    WHERE fk_discordId = ?1;
";

/// Select a character by owner id and name, for the pre-create uniqueness
/// check. Binds: owner id, name.
pub const SELECT_BY_NAME_AND_OWNER_ID: &'static str = "
    SELECT *
    FROM Characters
    WHERE fk_discordId = ?1 AND pk_name = ?2;
";

/// The full scan the startup sync loads the cache from: every character's
/// owner id, character id and name.
pub const SELECT_ALL_CHARACTER_IDS_AND_NAME: &'static str = "
    SELECT fk_discordId, pk_characterId, pk_name
    FROM Characters;
";

/// The most recently assigned character id, fetched right after a successful
/// insert.
pub const GET_NEWEST_CHARACTER_ID: &'static str = "
    SELECT MAX(pk_characterId)
    FROM Characters;
";

/// Remove a character. Binds: character id.
pub const REMOVE_CHARACTER: &'static str = "
    DELETE
    FROM Characters
    WHERE pk_characterId = ?1;
";

/// Add an owner's profile. Binds: owner id.
pub const REGISTER: &'static str = "
    INSERT INTO DiscordUsers ( pk_discordId, fk_currentCharacter )
    VALUES ( ?1, null )
";

/// Select an owner's profile. Binds: owner id.
pub const SELECT_USER_BY_ID: &'static str = "
    SELECT *
    FROM DiscordUsers
    WHERE pk_discordId = ?1
";

/// Remove an owner's profile. Binds: owner id.
pub const REMOVE_USER_ENTRY: &'static str = "
    DELETE FROM DiscordUsers
    WHERE pk_discordId = ?1
";

} // verus!
