use yalv::address::{address_sources, merge_addresses, parse_domifaddr_output};
use yalv::list::parse_virsh_output;
use yalv::memory::convert_memory_to_mib;
use yalv::resources::{apply_resources, parse_dumpxml_resources, vm_resources};
use yalv::summary::{dumpxml_summary, summarize_dumpxml, summarize_tokens, vm_info_text, DumpOutcome};
use yalv::text::chars_of;
use yalv::xml::XmlToken;

const DOMAIN_XML: &str = "<domain type='kvm'>
  <name>vm1</name>
  <memory unit='KiB'>2097152</memory>
  <vcpu placement='static'>2</vcpu>
  <devices>
    <emulator>/usr/bin/qemu-system-x86_64</emulator>
    <disk type='file' device='disk'>
      <driver name='qemu' type='qcow2'/>
      <source file='/var/lib/images/a.qcow2'/>
      <target dev='vda' bus='virtio'/>
    </disk>
    <disk type='file' device='cdrom'>
      <source file='/iso/x.iso'/>
      <target dev='sda' bus='sata'/>
    </disk>
    <interface type='network'>
      <mac address='52:54:00:aa:bb:cc'/>
      <source network='default'/>
      <model type='virtio'/>
      <address type='pci' domain='0x0000' bus='0x01' slot='0x00' function='0x0'/>
    </interface>
  </devices>
</domain>
";

#[test]
fn list_two_records_with_multiword_state() {
    let out = " Id   Name       State\n--------\n 1    vm1        running\n -    vm2        shut off\n";
    let vms = parse_virsh_output(out);
    assert_eq!(vms.len(), 2);
    assert_eq!(vms[0].id, "1");
    assert_eq!(vms[0].name, "vm1");
    assert_eq!(vms[0].state, "running");
    assert_eq!(vms[1].id, "-");
    assert_eq!(vms[1].name, "vm2");
    assert_eq!(vms[1].state, "shut off");
    assert_eq!(vms[1].vcpus, "N/A");
    assert_eq!(vms[1].memory, "N/A");
}

#[test]
fn list_drops_short_rows_and_keeps_order() {
    let out = " Id Name State\n----------\n\n 3 a paused\n junk line\n------\n 4   b   in   shutdown\n";
    let vms = parse_virsh_output(out);
    assert_eq!(vms.len(), 2);
    assert_eq!(vms[0].name, "a");
    assert_eq!(vms[1].id, "4");
    assert_eq!(vms[1].state, "in shutdown");
}

#[test]
fn list_header_only_and_empty_input() {
    assert_eq!(parse_virsh_output(" Id Name State\n-----\n").len(), 0);
    assert_eq!(parse_virsh_output("").len(), 0);
    assert_eq!(parse_virsh_output(" 1 vm1 running\n 2 vm2 running\n").len(), 0);
}

#[test]
fn domifaddr_reads_ipv4_without_prefix() {
    let out = " Name       MAC address          Protocol     Address\n-------------------------------------------------------\n vnet0      52:54:00:11:22:33    ipv4         192.168.122.5/24\n vnet0      52:54:00:11:22:33    ipv6         fe80::1/64\n vnet1      52:54:00:11:22:34    ipv4         10.0.0.7\n vnet1      52:54:00:11:22:34    ipv4         192.168.122.5/24\n";
    let ips = parse_domifaddr_output(out);
    assert_eq!(ips, vec!["192.168.122.5".to_string(), "10.0.0.7".to_string()]);
}

#[test]
fn domifaddr_empty_table() {
    let out = " Name MAC address Protocol Address\n------\n";
    assert!(parse_domifaddr_output(out).is_empty());
}

#[test]
fn merging_sources_keeps_first_discovery() {
    let mut ips = vec!["192.168.122.5".to_string()];
    let found = vec!["10.0.0.2".to_string(), "192.168.122.5".to_string()];
    merge_addresses(&mut ips, &found);
    assert_eq!(ips, vec!["192.168.122.5".to_string(), "10.0.0.2".to_string()]);
    merge_addresses(&mut ips, &vec!["10.0.0.2".to_string()]);
    assert_eq!(ips.len(), 2);
}

#[test]
fn sources_in_priority_order() {
    assert_eq!(address_sources(), vec!["lease", "arp", "agent"]);
}

#[test]
fn memory_units_agree() {
    assert_eq!(convert_memory_to_mib("1048576", Some("b")), Some("1 MiB".to_string()));
    assert_eq!(convert_memory_to_mib("1024", Some("KiB")), Some("1 MiB".to_string()));
    assert_eq!(convert_memory_to_mib("1536", Some("KiB")), Some("1.5 MiB".to_string()));
}

#[test]
fn memory_units_and_defaults() {
    assert_eq!(convert_memory_to_mib("2097152", None), Some("2048 MiB".to_string()));
    assert_eq!(convert_memory_to_mib("2", Some("GiB")), Some("2048 MiB".to_string()));
    assert_eq!(convert_memory_to_mib("512", Some("mib")), Some("512 MiB".to_string()));
    assert_eq!(convert_memory_to_mib("3", Some("bytes")), Some("0 MiB".to_string()));
    assert_eq!(convert_memory_to_mib("256", Some("KIB")), Some("0.2 MiB".to_string()));
    assert_eq!(convert_memory_to_mib("1000", Some("KiB")), Some("1.0 MiB".to_string()));
    assert_eq!(convert_memory_to_mib("10", Some("TiB")), None);
    assert_eq!(convert_memory_to_mib("12x", Some("KiB")), None);
    assert_eq!(convert_memory_to_mib("", None), None);
}

#[test]
fn summary_of_descriptor() {
    let text = summarize_dumpxml(DOMAIN_XML).ok().unwrap();
    assert_eq!(
        text,
        "Network: default\nInterfaces: type=network, mac.address=52:54:00:aa:bb:cc, source.network=default, model.type=virtio\nEmulator: /usr/bin/qemu-system-x86_64\nDisks: vda: /var/lib/images/a.qcow2"
    );
}

#[test]
fn cdrom_is_not_a_disk() {
    let xml = "<domain><devices><disk device='cdrom'><source file='/iso/x.iso'/><target dev='sda'/></disk><disk device='disk'><target dev='vda'/><source file='/var/lib/images/a.qcow2'/></disk></devices></domain>";
    let text = summarize_dumpxml(xml).ok().unwrap();
    assert!(text.ends_with("Disks: vda: /var/lib/images/a.qcow2"));
    assert!(!text.contains("sda"));
}

#[test]
fn summary_defaults_and_unknown_parts() {
    let text = summarize_dumpxml("<domain><devices><disk device='disk'/><interface/></devices></domain>")
        .ok()
        .unwrap();
    assert_eq!(text, "Network: N/A\nInterfaces: N/A\nEmulator: N/A\nDisks: unknown: unknown");
    let empty = summarize_dumpxml("<domain/>").ok().unwrap();
    assert_eq!(empty, "Network: N/A\nInterfaces: N/A\nEmulator: N/A\nDisks: N/A");
}

#[test]
fn summary_of_tokens() {
    let tokens = vec![
        XmlToken::ElementStart("emulator".to_string()),
        XmlToken::TagOpen,
        XmlToken::Text("  /bin/qemu \n".to_string()),
        XmlToken::TagEnd,
    ];
    assert_eq!(summarize_tokens(&tokens), "Network: N/A\nInterfaces: N/A\nEmulator: /bin/qemu\nDisks: N/A");
}

#[test]
fn malformed_descriptor_is_an_error() {
    assert!(summarize_dumpxml("<domain a></domain>").is_err());
    assert!(parse_dumpxml_resources("<domain a></domain>").is_err());
    assert!(vm_resources("<domain a></domain>").is_none());
    let text = dumpxml_summary("vm1", &DumpOutcome::Output("<domain a></domain>".to_string()));
    assert_eq!(text, "(unable to parse dumpxml for 'vm1')");
}

#[test]
fn placeholder_texts() {
    let failed = dumpxml_summary("vm1", &DumpOutcome::Failed("no domain".to_string()));
    assert_eq!(failed, "(dumpxml failed for 'vm1': no domain)");
    let not_run = dumpxml_summary("vm1", &DumpOutcome::NotRun("not found".to_string()));
    assert_eq!(not_run, "(unable to run dumpxml for 'vm1': not found)");
}

#[test]
fn resources_of_descriptor() {
    let (vcpu, memory) = parse_dumpxml_resources(DOMAIN_XML).ok().unwrap();
    assert_eq!(vcpu, Some("2".to_string()));
    assert_eq!(memory, Some("2048 MiB".to_string()));
    let xml = "<domain><vcpu>4</vcpu><vcpu>8</vcpu><memory>1536</memory></domain>";
    let (vcpu, memory) = parse_dumpxml_resources(xml).ok().unwrap();
    assert_eq!(vcpu, Some("4".to_string()));
    assert_eq!(memory, Some("1.5 MiB".to_string()));
}

#[test]
fn resources_fill_a_record() {
    let mut vms = parse_virsh_output(" Id Name State\n---\n 1 vm1 running\n");
    let res = vm_resources("<domain><memory unit='GiB'>1</memory></domain>");
    assert_eq!(res, Some(("N/A".to_string(), "1024 MiB".to_string())));
    apply_resources(&mut vms[0], res);
    assert_eq!(vms[0].vcpus, "N/A");
    assert_eq!(vms[0].memory, "1024 MiB");
    apply_resources(&mut vms[0], None);
    assert_eq!(vms[0].memory, "1024 MiB");
}

#[test]
fn info_text_layout() {
    let ips = vec!["10.0.0.1".to_string(), "10.0.0.2".to_string()];
    assert_eq!(vm_info_text(&ips, "S"), "IPs: 10.0.0.1, 10.0.0.2\nS");
    assert_eq!(vm_info_text(&Vec::new(), "S"), "IPs: N/A\nS");
}

#[test]
fn characters_of_text() {
    assert_eq!(chars_of("añb"), vec!['a', 'ñ', 'b']);
}

#[test]
fn disk_source_follows_attribute_priority() {
    let xml = "<disk device='disk'><source dev='/dev/sdb' file='/img/b.raw'/><target dev='vdb'/></disk>";
    assert_eq!(
        summarize_dumpxml(xml).ok().unwrap(),
        "Network: N/A\nInterfaces: N/A\nEmulator: N/A\nDisks: vdb: /img/b.raw"
    );
    let xml = "<disk device='disk'><source path='/p' volume='v' name='n'/><target dev='vdc'/></disk>";
    assert!(summarize_dumpxml(xml).ok().unwrap().ends_with("Disks: vdc: n"));
}

#[test]
fn disk_reads_direct_children_only() {
    let xml = "<disk device='disk'><target dev='vda'/><backingStore><source file='/base.qcow2'/><target dev='inner'/></backingStore></disk>";
    assert!(summarize_dumpxml(xml).ok().unwrap().ends_with("Disks: vda: unknown"));
}

#[test]
fn interface_text_of_children_only() {
    let xml = "<interface type='bridge'>loose<model>virtio</model><driver><x>deep</x></driver></interface>";
    let text = summarize_dumpxml(xml).ok().unwrap();
    assert!(text.contains("Interfaces: type=bridge, model=virtio\n"));
}

#[test]
fn memory_with_fraction() {
    assert_eq!(convert_memory_to_mib("1.5", Some("GiB")), Some("1536 MiB".to_string()));
    assert_eq!(convert_memory_to_mib("0.5", Some("MiB")), Some("0.5 MiB".to_string()));
    assert_eq!(convert_memory_to_mib("2.25", Some("KiB")), Some("0 MiB".to_string()));
    assert_eq!(convert_memory_to_mib("1.", Some("MiB")), None);
    assert_eq!(convert_memory_to_mib(".5", Some("MiB")), None);
    assert_eq!(convert_memory_to_mib("1.2.3", Some("MiB")), None);
}

#[test]
fn memory_same_amount_in_three_units() {
    for n in [0u64, 1, 7, 4096] {
        let expected = Some(format!("{n} MiB"));
        assert_eq!(convert_memory_to_mib(&(n * 1048576).to_string(), Some("b")), expected);
        assert_eq!(convert_memory_to_mib(&(n * 1024).to_string(), Some("KiB")), expected);
        assert_eq!(convert_memory_to_mib(&n.to_string(), Some("MiB")), expected);
    }
}

#[test]
fn two_sources_share_an_address() {
    let lease = " Name MAC Protocol Address\n----\n vnet0 52:54:00:11:22:33 ipv4 192.168.122.5/24\n";
    let arp = " Name MAC Protocol Address\n----\n vnet0 52:54:00:11:22:33 ipv4 10.0.0.2/24\n vnet0 52:54:00:11:22:33 ipv4 192.168.122.5/24\n";
    let mut ips = Vec::new();
    merge_addresses(&mut ips, &parse_domifaddr_output(lease));
    merge_addresses(&mut ips, &parse_domifaddr_output(arp));
    assert_eq!(ips, vec!["192.168.122.5".to_string(), "10.0.0.2".to_string()]);
}
