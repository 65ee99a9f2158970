use retana::commands::{
    cron_add, cron_history, cron_list, cron_remove, cron_toggle, hostname, memory_get,
    memory_list, memory_list_category, memory_set, memory_set_reply, ssh_connect,
    ssh_connect_reply, ssh_disconnect, ssh_exec, ssh_status, AppState,
};
use retana::cron::{CronService, ScheduledTask};
use retana::memory::MemoryStore;
use retana::ssh::{ConnectOutcome, ConnectionStatus, SshConfig, SshManager};

fn state() -> AppState<u8> {
    AppState {
        ssh: SshManager::new(SshConfig {
            host: "localhost".to_string(),
            port: 22,
            username: "user".to_string(),
            key_path: None,
            password: None,
            reverse_tunnel: None,
        }),
        cron: CronService::new(),
        memory: MemoryStore::default_store("linux", "x86_64"),
    }
}

fn task(id: &str) -> ScheduledTask {
    ScheduledTask {
        id: id.to_string(),
        name: id.to_string(),
        command: "true".to_string(),
        schedule: "1m".to_string(),
        enabled: true,
        last_run: None,
    }
}

#[test]
fn ssh_commands() {
    let mut s = state();
    let other = SshConfig {
        host: "example.org".to_string(),
        port: 2222,
        username: "x".to_string(),
        key_path: None,
        password: None,
        reverse_tunnel: None,
    };
    let plan = ssh_connect(&mut s, other);
    assert_eq!(plan.addr, "example.org:2222");
    assert_eq!(plan.username, "x");
    assert!(matches!(ssh_status(&s), Ok(ConnectionStatus::Connecting)));
    let r = s.ssh.finish_connect(ConnectOutcome::Failed(retana::ssh::ConnectStage::Auth));
    assert_eq!(
        ssh_connect_reply(r),
        Err("Connection failed: No authentication method provided (key_path or password)".to_string())
    );
    assert_eq!(ssh_connect_reply(Ok(())), Ok("Connected successfully".to_string()));
    assert_eq!(ssh_exec(&s), Err("Not connected".to_string()));
    assert_eq!(ssh_disconnect(&mut s), Ok("Disconnected".to_string()));
    assert!(matches!(ssh_status(&s), Ok(ConnectionStatus::Disconnected)));
}

#[test]
fn cron_commands() {
    let mut s = state();
    assert_eq!(cron_add(&mut s, task("a")), Ok("Task added".to_string()));
    assert_eq!(cron_list(&s).unwrap().len(), 1);
    assert_eq!(cron_toggle(&mut s, "a".to_string(), false), Ok("Task a disabled".to_string()));
    assert_eq!(cron_toggle(&mut s, "a".to_string(), true), Ok("Task a enabled".to_string()));
    assert_eq!(cron_toggle(&mut s, "b".to_string(), true), Err("Task not found".to_string()));
    assert_eq!(cron_remove(&mut s, "a".to_string()), Ok("Task removed".to_string()));
    assert_eq!(cron_remove(&mut s, "a".to_string()), Err("Task not found".to_string()));
    assert!(cron_history(&s).unwrap().is_empty());
}

#[test]
fn memory_commands() {
    let mut s = state();
    assert_eq!(memory_get(&s, "k".to_string()), Err("Key 'k' not found".to_string()));
    memory_set(&mut s, "k".to_string(), "v".to_string(), "c".to_string());
    assert_eq!(memory_get(&s, "k".to_string()), Ok("v".to_string()));
    assert_eq!(memory_set_reply(Ok(())), Ok("Memory updated".to_string()));
    assert_eq!(memory_set_reply(Err("disk full".to_string())), Err("Save failed: disk full".to_string()));
    memory_set(&mut s, "k2".to_string(), "v2".to_string(), "d".to_string());
    assert_eq!(memory_list(&s).unwrap().len(), 2);
    let c = memory_list_category(&s, "d".to_string()).unwrap();
    assert_eq!(c.len(), 1);
    assert_eq!(c[0].key, "k2");
}

#[test]
fn host_name() {
    assert_eq!(hostname(Some("box\n".to_string())), "box");
    assert_eq!(hostname(None), "unknown");
}
