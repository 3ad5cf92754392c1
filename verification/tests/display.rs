use dcm::display::{
    age_text, checked_network_totals, no_containers_notice, command_fits_or_cuts_cleanly, container_name, container_row, containers_table_titles, containers_view, cpu_share,
    created_text, elapsed_seconds, format_port, format_ports, network_totals, short_id,
    slash_pair, stats_row, stats_table_titles, status_style, truncate_command, ContainersView,
    CpuShare, StatusStyle,
};
use dcm::docker::{
    Container, ContainerStats, CpuStats, CpuUsage, MemoryStats, NetworkStats, Port,
};

fn container(id: &str, command: &str) -> Container {
    Container {
        id: id.to_string(),
        names: Some(vec!["/web".to_string(), "/alias".to_string()]),
        image: "nginx:latest".to_string(),
        image_id: "sha256:1".to_string(),
        command: command.to_string(),
        created: 1_000_000,
        state: "running".to_string(),
        status: "Up 2 hours".to_string(),
        ports: Some(vec![Port {
            ip: Some("0.0.0.0".to_string()),
            private_port: 80,
            pub_port: Some(8080),
            port_type: "tcp".to_string(),
        }]),
        labels: None,
        size_rw: None,
        size_root_fs: None,
        host_config: None,
        network_settings: None,
        mounts: None,
    }
}

fn cpu(total: u64, system: Option<u64>, cpus: Option<u32>) -> CpuStats {
    CpuStats { cpu_usage: CpuUsage { total_usage: total }, system_cpu_usage: system, online_cpus: cpus }
}

fn sample(networks: Option<Vec<(String, NetworkStats)>>) -> ContainerStats {
    ContainerStats {
        name: "/web".to_string(),
        id: "0123456789abcdef".to_string(),
        cpu_stats: cpu(300, Some(2000), Some(4)),
        precpu_stats: cpu(100, Some(1000), None),
        memory_stats: MemoryStats { usage: Some(512), limit: Some(2000) },
        networks,
    }
}

#[test]
fn short_id_is_twelve_characters() {
    assert_eq!(short_id("0123456789abcdef0123"), "0123456789ab");
    assert_eq!(short_id("abc"), "abc");
}

#[test]
fn name_is_first_without_slashes() {
    assert_eq!(container_name(&Some(vec!["/web".to_string(), "/db".to_string()])), "web");
    assert_eq!(container_name(&Some(Vec::new())), "");
    assert_eq!(container_name(&None), "");
}

#[test]
fn long_commands_are_cut() {
    assert_eq!(truncate_command("nginx -g daemon off;"), "nginx -g daemon off;");
    assert_eq!(truncate_command("docker-entrypoint.sh postgres"), "docker-entrypoint...");
    assert_eq!(truncate_command("ééééééééx123456789012"), "ééééééééx...");
}

#[test]
fn age_in_largest_unit() {
    let created = 1_000_000u64;
    let now = created as i64;
    assert_eq!(created_text(created, now + 2 * 86_400 + 5, 0), "2 days ago");
    assert_eq!(created_text(created, now + 86_399, 0), "23 hours ago");
    assert_eq!(created_text(created, now + 3_600, 0), "1 hours ago");
    assert_eq!(created_text(created, now + 125, 0), "2 minutes ago");
    assert_eq!(created_text(created, now + 59, 999), "59 seconds ago");
    assert_eq!(created_text(created, now, 0), "0 seconds ago");
}

#[test]
fn future_creation_counts_whole_seconds_toward_zero() {
    let created = 1_000_000u64;
    let now = created as i64;
    assert_eq!(created_text(created, now - 10, 0), "-10 seconds ago");
    assert_eq!(created_text(created, now - 10, 500_000_000), "-9 seconds ago");
    assert_eq!(elapsed_seconds(created, now - 10, 500_000_000), Some(-9));
}

#[test]
fn unrepresentable_creation_time_is_unknown() {
    assert_eq!(created_text(1u64 << 62, 1_700_000_000, 0), "Unknown");
    assert_eq!(elapsed_seconds(1u64 << 62, 1_700_000_000, 0), None);
    assert_eq!(elapsed_seconds(u64::MAX, 1_700_000_000, 0), Some(1_700_000_001));
    assert_eq!(age_text(None), "Unknown");
    assert_eq!(age_text(Some(172_800)), "2 days ago");
}

#[test]
fn status_colours() {
    assert_eq!(status_style("running"), StatusStyle::Green);
    assert_eq!(status_style("paused"), StatusStyle::Yellow);
    assert_eq!(status_style("exited"), StatusStyle::Red);
    assert_eq!(status_style("created"), StatusStyle::Normal);
}

#[test]
fn ports_are_written() {
    let p = |ip: Option<&str>, pubp: Option<u16>| Port {
        ip: ip.map(|s| s.to_string()),
        private_port: 80,
        pub_port: pubp,
        port_type: "tcp".to_string(),
    };
    assert_eq!(format_port(&p(Some("0.0.0.0"), Some(8080))), "0.0.0.0:8080->80/tcp");
    assert_eq!(format_port(&p(None, Some(8080))), "8080:80/tcp");
    assert_eq!(format_port(&p(Some("::"), None)), "80/tcp");
    assert_eq!(format_port(&p(None, None)), "80/tcp");
    assert_eq!(
        format_ports(&Some(vec![p(Some("0.0.0.0"), Some(8080)), p(None, None)])),
        "0.0.0.0:8080->80/tcp, 80/tcp"
    );
    assert_eq!(format_ports(&Some(Vec::new())), "");
    assert_eq!(format_ports(&None), "");
}

#[test]
fn row_of_a_container() {
    let c = container("0123456789abcdef", "nginx -g 'daemon off;'");
    let row = container_row(&c, 1_000_000 + 7_200, 0);
    assert_eq!(row.short_id, "0123456789ab");
    assert_eq!(row.image, "nginx:latest");
    assert_eq!(row.command, "nginx -g 'daemon ...");
    assert_eq!(row.created, "2 hours ago");
    assert_eq!(row.status, "Up 2 hours");
    assert_eq!(row.status_style, StatusStyle::Green);
    assert_eq!(row.ports, "0.0.0.0:8080->80/tcp");
    assert_eq!(row.name, "web");
}

#[test]
fn view_of_a_container_list() {
    assert!(matches!(containers_view(&Vec::new(), false, 0, 0), ContainersView::NoContainers));
    let cs = vec![container("0123456789abcdef", "sh"), container("fedcba9876543210", "sh")];
    match containers_view(&cs, true, 0, 0) {
        ContainersView::ShortIds(ids) => assert_eq!(ids, vec!["0123456789ab", "fedcba987654"]),
        _ => panic!("expected short ids"),
    }
    match containers_view(&cs, false, 1_000_060, 0) {
        ContainersView::Rows(rows) => {
            assert_eq!(rows.len(), 2);
            assert_eq!(rows[1].short_id, "fedcba987654");
            assert_eq!(rows[0].created, "1 minutes ago");
        }
        _ => panic!("expected rows"),
    }
}

#[test]
fn table_titles() {
    assert_eq!(
        containers_table_titles(),
        vec!["CONTAINER ID", "IMAGE", "COMMAND", "CREATED", "STATUS", "PORTS", "NAMES"]
    );
    assert_eq!(
        stats_table_titles(),
        vec!["CONTAINER ID", "NAME", "CPU %", "MEM USAGE / LIMIT", "MEM %", "NET I/O", "BLOCK I/O"]
    );
}

#[test]
fn network_bytes_are_summed() {
    let nets = vec![
        ("eth0".to_string(), NetworkStats { rx_bytes: 1000, tx_bytes: 1500 }),
        ("eth1".to_string(), NetworkStats { rx_bytes: 500, tx_bytes: 0 }),
    ];
    assert_eq!(network_totals(&Some(nets)), (1500, 1500));
    assert_eq!(network_totals(&None), (0, 0));
}

#[test]
fn processor_share_needs_growth() {
    let s = sample(None);
    assert_eq!(cpu_share(&s), Some(CpuShare { cpu_delta: 200, system_delta: 1000, online_cpus: 4 }));
    let mut t = sample(None);
    t.cpu_stats.online_cpus = None;
    assert_eq!(cpu_share(&t).unwrap().online_cpus, 1);
    let mut t = sample(None);
    t.precpu_stats.system_cpu_usage = None;
    assert_eq!(cpu_share(&t), None);
    let mut t = sample(None);
    t.precpu_stats.cpu_usage.total_usage = 300;
    assert_eq!(cpu_share(&t), None);
    let mut t = sample(None);
    t.precpu_stats.system_cpu_usage = Some(2000);
    assert_eq!(cpu_share(&t), None);
}

#[test]
fn row_of_a_sample() {
    let nets = vec![
        ("eth0".to_string(), NetworkStats { rx_bytes: 1000, tx_bytes: 1500 }),
        ("eth1".to_string(), NetworkStats { rx_bytes: 500, tx_bytes: 0 }),
    ];
    let row = stats_row(&sample(Some(nets)));
    assert_eq!(row.short_id, "0123456789ab");
    assert_eq!(row.name, "web");
    assert_eq!(row.cpu, Some(CpuShare { cpu_delta: 200, system_delta: 1000, online_cpus: 4 }));
    assert_eq!(row.memory, "512 B / 2 kB");
    assert_eq!(row.memory_share, Some((512, 2000)));
    assert_eq!(row.net_io, "1.50 kB / 1.50 kB");
    assert_eq!(row.block_io, "N/A");
    let mut s = sample(None);
    s.memory_stats = MemoryStats { usage: None, limit: None };
    let row = stats_row(&s);
    assert_eq!(row.memory, "0 B / 0 B");
    assert_eq!(row.memory_share, None);
    assert_eq!(row.net_io, "0 B / 0 B");
}

#[test]
fn slash_between_two_texts() {
    assert_eq!(slash_pair("1 kB", "2 kB"), "1 kB / 2 kB");
}

#[test]
fn which_commands_can_be_cut() {
    assert!(command_fits_or_cuts_cleanly("short"));
    assert!(command_fits_or_cuts_cleanly("docker-entrypoint.sh postgres"));
    assert!(command_fits_or_cuts_cleanly("ééééééééx123456789012"));
    assert!(!command_fits_or_cuts_cleanly("éééééééééé123456789"));
    assert!(command_fits_or_cuts_cleanly("éééééééééé"));
}

#[test]
fn network_totals_that_overflow() {
    let nets = vec![
        ("a".to_string(), NetworkStats { rx_bytes: u64::MAX, tx_bytes: 1 }),
        ("b".to_string(), NetworkStats { rx_bytes: 1, tx_bytes: 1 }),
    ];
    assert_eq!(checked_network_totals(&Some(nets)), None);
    let nets = vec![("a".to_string(), NetworkStats { rx_bytes: u64::MAX, tx_bytes: 0 })];
    assert_eq!(checked_network_totals(&Some(nets)), Some((u64::MAX, 0)));
    assert_eq!(checked_network_totals(&None), Some((0, 0)));
}

#[test]
fn network_totals_ignore_order() {
    let a = ("eth0".to_string(), NetworkStats { rx_bytes: 7, tx_bytes: 11 });
    let b = ("eth1".to_string(), NetworkStats { rx_bytes: 13, tx_bytes: 17 });
    let forward = network_totals(&Some(vec![a.clone(), b.clone()]));
    let backward = network_totals(&Some(vec![b, a]));
    assert_eq!(forward, (20, 28));
    assert_eq!(forward, backward);
}

#[test]
fn representable_creation_times_span_chronos_range() {
    let earliest = (-8_334_601_228_800i64) as u64;
    let latest = 8_210_266_876_799u64;
    assert_eq!(elapsed_seconds(earliest, 0, 0), Some(8_334_601_228_800));
    assert_eq!(elapsed_seconds(earliest - 1, 0, 0), None);
    assert_eq!(elapsed_seconds(latest, 8_210_266_876_800, 0), Some(1));
    assert_eq!(elapsed_seconds(latest + 1, 0, 0), None);
}

#[test]
fn notice_for_no_containers() {
    assert_eq!(no_containers_notice(), "no containers found");
}
