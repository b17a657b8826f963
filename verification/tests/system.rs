use muaaz::cpu::parse_stat;
use muaaz::info::{find_pretty_field, parse_pretty_field, trimmed};
use muaaz::memory::parse_meminfo;
use muaaz::{CpuProvider, CpuSample, LinuxSystemInfo, MemoryInfo, MuaazSystem, SystemError};

#[test]
fn system_error_displays() {
    let err = SystemError::Parse("bad value".into());
    assert!(err.to_string().contains("bad value"));
}

#[test]
fn system_error_messages() {
    let err = SystemError::parse("x");
    assert_eq!(err.to_string(), "could not parse system data: x");
    let err = SystemError::Io(std::io::Error::new(std::io::ErrorKind::Other, "boom"));
    assert_eq!(err.to_string(), "I/O error while reading system state: boom");
}

#[test]
fn memory_mib() {
    let m = MemoryInfo { total_bytes: 1024, used_bytes: 512, available_bytes: 512 };
    assert_eq!(m.total_mib(), 0);
    let m = MemoryInfo { total_bytes: 3 * 1048576 + 5, used_bytes: 1048576, available_bytes: 0 };
    assert_eq!(m.total_mib(), 3);
    assert_eq!(m.used_mib(), 1);
}

const MEMINFO: &str = "MemTotal:       16318464 kB\nMemFree:         1234567 kB\nMemAvailable:    8159232 kB\nBuffers:          123 kB\n";

#[test]
fn meminfo_parses() {
    let m = parse_meminfo(MEMINFO).unwrap();
    assert_eq!(m.total_bytes, 16318464 * 1024);
    assert_eq!(m.available_bytes, 8159232 * 1024);
    assert_eq!(m.used_bytes, (16318464 - 8159232) * 1024);
}

#[test]
fn meminfo_missing_fields() {
    match parse_meminfo("MemAvailable: 1 kB\n") {
        Err(SystemError::Parse(w)) => assert_eq!(w, "MemTotal missing"),
        _ => panic!("expected parse error"),
    }
    match parse_meminfo("MemTotal: 1 kB\r\nFoo\n") {
        Err(SystemError::Parse(w)) => assert_eq!(w, "MemAvailable missing"),
        _ => panic!("expected parse error"),
    }
}

#[test]
fn meminfo_later_lines_win_and_bad_numbers_read_as_zero() {
    let m = parse_meminfo("MemTotal: 4\nMemAvailable: x kB\nMemTotal: 2 kB\n").unwrap();
    assert_eq!(m.total_bytes, 2048);
    assert_eq!(m.available_bytes, 0);
    assert_eq!(m.used_bytes, 2048);
    let m = parse_meminfo(" MemTotal :1\nMemAvailable:5").unwrap();
    assert_eq!(m.used_bytes, 0);
}

#[test]
fn meminfo_range_check() {
    match parse_meminfo("MemTotal: 18446744073709551615 kB\nMemAvailable: 1 kB\n") {
        Err(SystemError::Parse(w)) => assert_eq!(w, "/proc/meminfo value out of range"),
        _ => panic!("expected parse error"),
    }
    match parse_meminfo("MemAvailable: 18014398509481984 kB\n") {
        Err(SystemError::Parse(w)) => assert_eq!(w, "/proc/meminfo value out of range"),
        _ => panic!("expected parse error"),
    }
    let m = parse_meminfo("MemTotal: 18014398509481983 kB\nMemAvailable: 18446744073709551616 kB\n").unwrap();
    assert_eq!(m.total_bytes, 18014398509481983 * 1024);
    assert_eq!(m.available_bytes, 0);
    assert!(parse_meminfo("no colon here 99999999999999999999\nMemTotal: 1\nMemAvailable: 1").is_ok());
}

const STAT: &str = "cpu  10 20 30 400 50 6 7 8 0 0\ncpu0 1 2 3 4\n";

#[test]
fn stat_parses() {
    let s = parse_stat(STAT).unwrap();
    assert_eq!(s, CpuSample { idle: 400, total: 531 });
    let s = parse_stat("cpu 1 x 2 3 4\n").unwrap();
    assert_eq!(s, CpuSample { idle: 4, total: 10 });
}

#[test]
fn stat_errors() {
    match parse_stat("") {
        Err(SystemError::Parse(w)) => assert_eq!(w, "empty /proc/stat"),
        _ => panic!("expected parse error"),
    }
    match parse_stat("cpu 1 2 3\n") {
        Err(SystemError::Parse(w)) => assert_eq!(w, "unexpected /proc/stat format"),
        _ => panic!("expected parse error"),
    }
    match parse_stat("cpu 18446744073709551615 1 0 0 0") {
        Err(SystemError::Parse(w)) => assert_eq!(w, "/proc/stat value out of range"),
        _ => panic!("expected parse error"),
    }
    assert_eq!(parse_stat("cpu 18446744073709551614 1 0 0 0").unwrap().total, u64::MAX);
    let mut p = CpuProvider::new("cpu 18446744073709551615 1 0 0 0");
    assert!(p.read_delta("cpu 18446744073709551615 1 0 0 0").is_err());
    assert_eq!(p.read_delta("cpu 1 1 1 1 0").unwrap(), (1, 4));
}

#[test]
fn cpu_deltas() {
    let mut p = CpuProvider::new("cpu 1 1 1 10 0\n");
    assert_eq!(p.read_delta("cpu 2 2 2 15 0\n").unwrap(), (5, 8));
    assert_eq!(p.read_delta("cpu 2 2 2 15 0\n").unwrap(), (0, 0));
    assert_eq!(p.read_delta("cpu 0 0 0 1 0\n").unwrap(), (0, 0));
    assert!(p.read_delta("garbage").is_err());
    assert_eq!(p.read_delta("cpu 0 0 0 4 0\n").unwrap(), (3, 3));
    let mut q = CpuProvider::new("");
    assert_eq!(q.read_delta(STAT).unwrap(), (400, 531));
}

#[test]
fn system_starts_with_empty_registry() {
    let s = MuaazSystem::new("");
    assert_eq!(s.apps.list().len(), 0);
}

const OS_RELEASE: &str = "NAME=\"Big OS\"\nPRETTY_NAME=\"Big OS 1.0 (Test)\"\nID=bigos\n";

#[test]
fn parses_pretty_field() {
    let result = parse_pretty_field(OS_RELEASE, "PRETTY_NAME", "/tmp/os-release");
    assert_eq!(result.unwrap(), "Big OS 1.0 (Test)");
}

#[test]
fn missing_pretty_field_is_parse_error() {
    let result = parse_pretty_field("NAME=\"No Pretty\"\n", "PRETTY_NAME", "/tmp/os-release");
    match result {
        Err(SystemError::Parse(w)) => assert_eq!(w, "PRETTY_NAME not found in /tmp/os-release"),
        _ => panic!("expected parse error"),
    }
}

#[test]
fn pretty_field_details() {
    assert_eq!(find_pretty_field("A=1\nA=2\n", "A").as_deref(), Some("1"));
    assert_eq!(find_pretty_field("A =1\n", "A"), None);
    assert_eq!(find_pretty_field("A=  \"\"x\"\"  \n", "A").as_deref(), Some("x"));
    assert_eq!(find_pretty_field("A=b=c", "A").as_deref(), Some("b=c"));
    assert_eq!(trimmed("  host\n"), "host");
}

fn missing() -> std::io::Error {
    std::io::Error::new(std::io::ErrorKind::NotFound, "missing")
}

#[test]
fn system_info_assembly() {
    let info = LinuxSystemInfo::assemble(
        Ok("box\n".to_string()),
        Ok(OS_RELEASE.to_string()),
        Ok("6.11.3\n".to_string()),
        Err(missing()),
    )
    .unwrap();
    assert_eq!(info.hostname, "box");
    assert_eq!(info.kernel_release, "6.11.3");
    assert_eq!(info.kernel_name, "Linux");
    assert_eq!(info.os_pretty_name.as_deref(), Some("Big OS 1.0 (Test)"));
    assert_eq!(info.architecture, None);
    assert_eq!(info.to_string(), "box (6.11.3)");
    assert!(info.clone() == info);

    let info = LinuxSystemInfo::assemble(
        Err(missing()),
        Ok(OS_RELEASE.to_string()),
        Ok("6\n".to_string()),
        Ok("x86_64\n".to_string()),
    )
    .unwrap();
    assert_eq!(info.hostname, "Big OS 1.0 (Test)");
    assert_eq!(info.architecture.as_deref(), Some("x86_64"));

    let err = LinuxSystemInfo::assemble(Err(missing()), Ok("ID=x\n".to_string()), Ok("6".to_string()), Err(missing()));
    match err {
        Err(SystemError::Parse(w)) => assert_eq!(w, "PRETTY_NAME not found in /etc/os-release"),
        _ => panic!("expected parse error"),
    }
    let err = LinuxSystemInfo::assemble(Ok("h".to_string()), Err(missing()), Err(missing()), Err(missing()));
    assert!(matches!(err, Err(SystemError::Io(_))));
}
