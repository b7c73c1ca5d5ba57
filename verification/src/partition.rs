//! Disks and partitions as the engine's collaborators report them, and the
//! choice of tool invocation for formatting, resizing and checking
//! filesystems. The shelling itself is outside work and lives with the
//! embedding application; which program runs with which arguments is
//! decided, exactly, here.

use vstd::prelude::*;
use vstd::string::StringExecFns;
use crate::parse::{all_digits, parse_u32_dec, spec_dec_val};
use crate::text::{
    split_on_char, split_sep, str_eq, str_strip_leading, str_strip_prefix_runs, str_trim_ws,
    strip_leading, strip_prefix_runs, trim_ws, views_of,
};

verus! {

/// One partition of a block device.
#[derive(Debug)]
pub struct Partition {
    pub device: String,
    pub partition_number: Option<u32>,
    pub filesystem: Option<String>,
    pub label: Option<String>,
    pub size_bytes: u64,
    pub used_bytes: u64,
    pub mount_point: Option<String>,
    pub partition_type: Option<String>,
    pub flags: Vec<String>,
}

/// One block device and its partitions.
#[derive(Debug)]
pub struct Disk {
    pub device: String,
    pub model: String,
    pub size_bytes: u64,
    pub logical_sector_size: u32,
    pub physical_sector_size: u32,
    pub partitions: Vec<Partition>,
}

/// Handle for partition management; the tool invocations live with the
/// embedding application.
pub struct PartitionManager {
}

impl PartitionManager {
    pub fn new() -> (r: Self) {
        Self {  }
    }
}

impl Default for PartitionManager {
    fn default() -> Self {
        Self::new()
    }
}

/// The partition number encoded in a partition's device name: the name
/// without its parent-device prefix and any following run of 'p', read as
/// a decimal number, if that is one.
pub open spec fn spec_partition_number(name: Seq<char>, parent: Seq<char>) -> Option<int> {
    let t = strip_leading(strip_prefix_runs(name, parent), 'p');
    if t.len() > 0 && all_digits(t) && spec_dec_val(t) <= u32::MAX {
        Some(spec_dec_val(t))
    } else {
        None
    }
}

/// Read the partition number out of a partition's device name, exactly as
/// `spec_partition_number` says.
pub fn partition_number_of(name: &str, parent_device: &str) -> (r: Option<u32>)
    ensures
        match r {
            Some(v) => spec_partition_number(name@, parent_device@) == Some(v as int),
            None => spec_partition_number(name@, parent_device@) is None,
        },
{
    let stripped = str_strip_prefix_runs(name, parent_device);
    let trimmed = str_strip_leading(stripped.as_str(), 'p');
    parse_u32_dec(trimmed.as_str())
}

/// What a table line of a partitioning tool's report denotes: on a line
/// whose first colon-field, trimmed, reads `Partition Table`, the trimmed
/// second field names the table type.
pub open spec fn spec_table_type(line: Seq<char>) -> Option<Seq<char>> {
    let fs = split_sep(line, ':');
    if fs.len() < 2 {
        None
    } else if trim_ws(fs[0]) == "Partition Table"@ {
        Some(trim_ws(fs[1]))
    } else {
        None
    }
}

/// Read the partition-table type out of one report line, exactly as
/// `spec_table_type` says.
pub fn parse_table_type_line(line: &str) -> (r: Option<String>)
    ensures
        match r {
            Some(t) => spec_table_type(line@) == Some(t@),
            None => spec_table_type(line@) is None,
        },
{
    let fields = split_on_char(line, ':');
    proof {
        assert(views_of(fields@).len() == fields@.len());
    }
    if fields.len() < 2 {
        return None;
    }
    let head = str_trim_ws(fields[0].as_str());
    if str_eq(head.as_str(), "Partition Table") {
        Some(str_trim_ws(fields[1].as_str()))
    } else {
        None
    }
}

/// A tool invocation: program name and arguments.
pub struct ToolCommand {
    pub program: String,
    pub args: Vec<String>,
}

/// The formatting invocation for one filesystem type: the label flag it
/// takes, and whether a force flag is passed.
pub open spec fn spec_format_command(
    device: Seq<char>,
    filesystem: Seq<char>,
    label: Option<Seq<char>>,
) -> Option<(Seq<char>, Seq<Seq<char>>)> {
    if filesystem == "ext2"@ || filesystem == "ext3"@ || filesystem == "ext4"@ {
        Some((("mkfs."@ + filesystem), label_args(label, "-L"@).push(device)))
    } else if filesystem == "xfs"@ {
        Some(("mkfs.xfs"@, seq!["-f"@] + label_args(label, "-L"@).push(device)))
    } else if filesystem == "btrfs"@ {
        Some(("mkfs.btrfs"@, seq!["-f"@] + label_args(label, "-L"@).push(device)))
    } else if filesystem == "f2fs"@ {
        Some(("mkfs.f2fs"@, label_args(label, "-l"@).push(device)))
    } else if filesystem == "ntfs"@ {
        Some(("mkfs.ntfs"@, seq!["-f"@] + label_args(label, "-L"@).push(device)))
    } else if filesystem == "fat32"@ || filesystem == "vfat"@ {
        Some(("mkfs.vfat"@, seq!["-F"@, "32"@] + label_args(label, "-n"@).push(device)))
    } else {
        None
    }
}

/// The label arguments: the flag and the label, or nothing.
pub open spec fn label_args(label: Option<Seq<char>>, flag: Seq<char>) -> Seq<Seq<char>> {
    match label {
        Some(l) => seq![flag, l],
        None => Seq::empty(),
    }
}

/// Build the mkfs invocation that formats `device` as `filesystem`, with
/// an optional volume label; `None` for an unsupported filesystem type.
pub fn format_partition_command(device: &str, filesystem: &str, label: Option<&str>) -> (r:
    Option<ToolCommand>)
    ensures
        match r {
            Some(cmd) => spec_format_command(device@, filesystem@, spec_label(label)) == Some(
                (cmd.program@, views_of(cmd.args@)),
            ),
            None => spec_format_command(device@, filesystem@, spec_label(label)) is None,
        },
{
    let is_ext = str_eq(filesystem, "ext2") || str_eq(filesystem, "ext3") || str_eq(
        filesystem,
        "ext4",
    );
    if is_ext {
        let mut program = "mkfs.".to_owned();
        program.append(filesystem);
        let mut args: Vec<String> = Vec::new();
        push_label(&mut args, label, "-L");
        args.push(device.to_owned());
        proof {
            assert(views_of(args@) =~= label_args(spec_label(label), "-L"@).push(device@));
        }
        Some(ToolCommand { program, args })
    } else if str_eq(filesystem, "xfs") {
        let mut args: Vec<String> = Vec::new();
        args.push("-f".to_owned());
        proof {
            assert(views_of(args@) =~= seq!["-f"@]);
        }
        push_label(&mut args, label, "-L");
        let ghost mid = args@;
        args.push(device.to_owned());
        proof {
            assert(views_of(args@) =~= views_of(mid).push(device@));
            assert(views_of(mid).push(device@) =~= seq!["-f"@] + label_args(
                spec_label(label),
                "-L"@,
            ).push(device@));
        }
        Some(ToolCommand { program: "mkfs.xfs".to_owned(), args })
    } else if str_eq(filesystem, "btrfs") {
        let mut args: Vec<String> = Vec::new();
        args.push("-f".to_owned());
        proof {
            assert(views_of(args@) =~= seq!["-f"@]);
        }
        push_label(&mut args, label, "-L");
        let ghost mid = args@;
        args.push(device.to_owned());
        proof {
            assert(views_of(args@) =~= views_of(mid).push(device@));
            assert(views_of(mid).push(device@) =~= seq!["-f"@] + label_args(
                spec_label(label),
                "-L"@,
            ).push(device@));
        }
        Some(ToolCommand { program: "mkfs.btrfs".to_owned(), args })
    } else if str_eq(filesystem, "f2fs") {
        let mut args: Vec<String> = Vec::new();
        push_label(&mut args, label, "-l");
        args.push(device.to_owned());
        proof {
            assert(views_of(args@) =~= label_args(spec_label(label), "-l"@).push(device@));
        }
        Some(ToolCommand { program: "mkfs.f2fs".to_owned(), args })
    } else if str_eq(filesystem, "ntfs") {
        let mut args: Vec<String> = Vec::new();
        args.push("-f".to_owned());
        proof {
            assert(views_of(args@) =~= seq!["-f"@]);
        }
        push_label(&mut args, label, "-L");
        let ghost mid = args@;
        args.push(device.to_owned());
        proof {
            assert(views_of(args@) =~= views_of(mid).push(device@));
            assert(views_of(mid).push(device@) =~= seq!["-f"@] + label_args(
                spec_label(label),
                "-L"@,
            ).push(device@));
        }
        Some(ToolCommand { program: "mkfs.ntfs".to_owned(), args })
    } else if str_eq(filesystem, "fat32") || str_eq(filesystem, "vfat") {
        let mut args: Vec<String> = Vec::new();
        args.push("-F".to_owned());
        args.push("32".to_owned());
        proof {
            assert(views_of(args@) =~= seq!["-F"@, "32"@]);
        }
        push_label(&mut args, label, "-n");
        let ghost mid = args@;
        args.push(device.to_owned());
        proof {
            assert(views_of(args@) =~= views_of(mid).push(device@));
            assert(views_of(mid).push(device@) =~= seq!["-F"@, "32"@] + label_args(
                spec_label(label),
                "-n"@,
            ).push(device@));
        }
        Some(ToolCommand { program: "mkfs.vfat".to_owned(), args })
    } else {
        None
    }
}

/// The view of an optional label.
pub open spec fn spec_label(label: Option<&str>) -> Option<Seq<char>> {
    match label {
        Some(l) => Some(l@),
        None => None,
    }
}

fn push_label(args: &mut Vec<String>, label: Option<&str>, flag: &str)
    ensures
        views_of(final(args)@) == views_of(old(args)@) + label_args(spec_label(label), flag@),
{
    match label {
        Some(l) => {
            args.push(flag.to_owned());
            args.push(l.to_owned());
            proof {
                assert(views_of(args@) =~= views_of(old(args)@) + label_args(
                    spec_label(label),
                    flag@,
                ));
            }
        }
        None => {
            proof {
                assert(views_of(args@) =~= views_of(old(args)@) + label_args(
                    spec_label(label),
                    flag@,
                ));
            }
        }
    }
}

/// How a filesystem on a resized partition is grown.
pub enum ResizeFsCommand {
    /// Run this tool.
    Run(ToolCommand),
    /// The filesystem grows only while mounted.
    NeedsMount,
    /// No resize tool is known for this filesystem type.
    Unsupported,
}

/// Build the invocation that grows the filesystem on `device` to fill its
/// partition: ext-family filesystems use resize2fs, btrfs its own tool,
/// and xfs must be grown while mounted.
pub fn resize_filesystem_command(device: &str, filesystem: &str) -> (r: ResizeFsCommand)
    ensures
        (filesystem@ == "ext2"@ || filesystem@ == "ext3"@ || filesystem@ == "ext4"@) ==> (match r {
            ResizeFsCommand::Run(cmd) => cmd.program@ == "resize2fs"@ && views_of(cmd.args@)
                == seq![device@],
            _ => false,
        }),
        filesystem@ == "btrfs"@ ==> (match r {
            ResizeFsCommand::Run(cmd) => cmd.program@ == "btrfs"@ && views_of(cmd.args@)
                == seq!["filesystem"@, "resize"@, "max"@, device@],
            _ => false,
        }),
        filesystem@ == "xfs"@ ==> r is NeedsMount,
        (filesystem@ != "ext2"@ && filesystem@ != "ext3"@ && filesystem@ != "ext4"@ && filesystem@
            != "btrfs"@ && filesystem@ != "xfs"@) ==> r is Unsupported,
{
    proof {
        reveal_strlit("ext2");
        reveal_strlit("ext3");
        reveal_strlit("ext4");
        reveal_strlit("xfs");
        reveal_strlit("btrfs");
        assert("ext2"@.len() == 4);
        assert("ext3"@.len() == 4);
        assert("ext4"@.len() == 4);
        assert("xfs"@.len() == 3);
        assert("btrfs"@.len() == 5);
    }
    if str_eq(filesystem, "ext2") || str_eq(filesystem, "ext3") || str_eq(filesystem, "ext4") {
        let mut args: Vec<String> = Vec::new();
        args.push(device.to_owned());
        proof {
            assert(views_of(args@) =~= seq![device@]);
        }
        ResizeFsCommand::Run(ToolCommand { program: "resize2fs".to_owned(), args })
    } else if str_eq(filesystem, "btrfs") {
        let mut args: Vec<String> = Vec::new();
        args.push("filesystem".to_owned());
        args.push("resize".to_owned());
        args.push("max".to_owned());
        args.push(device.to_owned());
        proof {
            assert(views_of(args@) =~= seq!["filesystem"@, "resize"@, "max"@, device@]);
        }
        ResizeFsCommand::Run(ToolCommand { program: "btrfs".to_owned(), args })
    } else if str_eq(filesystem, "xfs") {
        ResizeFsCommand::NeedsMount
    } else {
        ResizeFsCommand::Unsupported
    }
}

/// Build the invocation that checks the filesystem on `device` for errors:
/// ext-family filesystems run e2fsck (automatic repair or read-only), xfs
/// runs a read-only xfs_repair, btrfs its own check; `None` for an
/// unsupported filesystem type.
pub fn check_filesystem_command(device: &str, filesystem: &str, repair: bool) -> (r: Option<
    ToolCommand,
>)
    ensures
        (filesystem@ == "ext2"@ || filesystem@ == "ext3"@ || filesystem@ == "ext4"@) ==> (match r {
            Some(cmd) => cmd.program@ == "e2fsck"@ && views_of(cmd.args@) == seq![
                if repair {
                    "-p"@
                } else {
                    "-n"@
                },
                device@,
            ],
            None => false,
        }),
        filesystem@ == "xfs"@ ==> (match r {
            Some(cmd) => cmd.program@ == "xfs_repair"@ && views_of(cmd.args@) == seq![
                "-n"@,
                device@,
            ],
            None => false,
        }),
        filesystem@ == "btrfs"@ ==> (match r {
            Some(cmd) => cmd.program@ == "btrfs"@ && views_of(cmd.args@) == (
                if repair {
                    seq!["check"@, "--repair"@, device@]
                } else {
                    seq!["check"@, device@]
                }
            ),
            None => false,
        }),
        (filesystem@ != "ext2"@ && filesystem@ != "ext3"@ && filesystem@ != "ext4"@ && filesystem@
            != "xfs"@ && filesystem@ != "btrfs"@) ==> r is None,
{
    proof {
        reveal_strlit("ext2");
        reveal_strlit("ext3");
        reveal_strlit("ext4");
        reveal_strlit("xfs");
        reveal_strlit("btrfs");
        assert("ext2"@.len() == 4);
        assert("ext3"@.len() == 4);
        assert("ext4"@.len() == 4);
        assert("xfs"@.len() == 3);
        assert("btrfs"@.len() == 5);
    }
    if str_eq(filesystem, "ext2") || str_eq(filesystem, "ext3") || str_eq(filesystem, "ext4") {
        let mut args: Vec<String> = Vec::new();
        if repair {
            args.push("-p".to_owned());
        } else {
            args.push("-n".to_owned());
        }
        args.push(device.to_owned());
        proof {
            assert(views_of(args@) =~= seq![if repair { "-p"@ } else { "-n"@ }, device@]);
        }
        Some(ToolCommand { program: "e2fsck".to_owned(), args })
    } else if str_eq(filesystem, "xfs") {
        let mut args: Vec<String> = Vec::new();
        args.push("-n".to_owned());
        args.push(device.to_owned());
        proof {
            assert(views_of(args@) =~= seq!["-n"@, device@]);
        }
        Some(ToolCommand { program: "xfs_repair".to_owned(), args })
    } else if str_eq(filesystem, "btrfs") {
        let mut args: Vec<String> = Vec::new();
        args.push("check".to_owned());
        if repair {
            args.push("--repair".to_owned());
        }
        args.push(device.to_owned());
        proof {
            if repair {
                assert(views_of(args@) =~= seq!["check"@, "--repair"@, device@]);
            } else {
                assert(views_of(args@) =~= seq!["check"@, device@]);
            }
        }
        Some(ToolCommand { program: "btrfs".to_owned(), args })
    } else {
        None
    }
}

} // verus!
