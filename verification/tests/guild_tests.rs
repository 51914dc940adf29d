use guildstore::guild_service::GuildService;

#[test]
fn create_guild_registers_the_guild() {
    let mut service = GuildService::new();
    assert!(!service.guild_exists(42));
    assert!(service.create_guild(42).is_ok());
    assert!(service.guild_exists(42));
    assert_eq!(service.guild_count(), 1);
}

#[test]
fn create_guild_twice_is_idempotent() {
    let mut service = GuildService::new();
    assert!(service.create_guild(42).is_ok());
    assert!(service.create_guild(42).is_ok());
    assert!(service.guild_exists(42));
    assert_eq!(service.guild_count(), 1);
}

#[test]
fn delete_guild_removes_the_guild() {
    let mut service = GuildService::new();
    assert!(service.create_guild(7).is_ok());
    assert!(service.create_guild(8).is_ok());
    assert!(service.delete_guild(7).is_ok());
    assert!(!service.guild_exists(7));
    assert!(service.guild_exists(8));
    assert_eq!(service.guild_count(), 1);
}

#[test]
fn delete_guild_on_absent_guild_succeeds() {
    let mut service = GuildService::new();
    assert!(service.delete_guild(999).is_ok());
    assert_eq!(service.guild_count(), 0);
    assert!(service.create_guild(1).is_ok());
    assert!(service.delete_guild(999).is_ok());
    assert!(service.guild_exists(1));
    assert_eq!(service.guild_count(), 1);
}

#[test]
fn delete_guild_twice_is_idempotent() {
    let mut service = GuildService::new();
    assert!(service.create_guild(5).is_ok());
    assert!(service.delete_guild(5).is_ok());
    assert!(service.delete_guild(5).is_ok());
    assert!(!service.guild_exists(5));
    assert_eq!(service.guild_count(), 0);
}
