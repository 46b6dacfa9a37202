//! The drives that are connected, as one listing of the inventory reports
//! them, and the questions that are asked of such a listing.

use vstd::prelude::*;
use crate::text::{contains_ignore_case, contains_ignoring_case, is_under, path_under, str_eq};

verus! {

/// A connected drive.
#[derive(Debug, PartialEq, Eq)]
pub struct DriveInfo {
    pub name: String,
    pub mount_point: String,
    pub total_space: u64,
    pub available_space: u64,
    pub file_system: String,
    pub is_removable: bool,
}

/// A `DriveInfo` as a mathematical value.
pub struct DriveInfoView {
    pub name: Seq<char>,
    pub mount_point: Seq<char>,
    pub total_space: u64,
    pub available_space: u64,
    pub file_system: Seq<char>,
    pub is_removable: bool,
}

impl View for DriveInfo {
    type V = DriveInfoView;

    open spec fn view(&self) -> DriveInfoView {
        DriveInfoView {
            name: self.name@,
            mount_point: self.mount_point@,
            total_space: self.total_space,
            available_space: self.available_space,
            file_system: self.file_system@,
            is_removable: self.is_removable,
        }
    }
}

impl Clone for DriveInfo {
    fn clone(&self) -> (r: DriveInfo)
        ensures
            r@ == self@,
    {
        DriveInfo {
            name: self.name.clone(),
            mount_point: self.mount_point.clone(),
            total_space: self.total_space,
            available_space: self.available_space,
            file_system: self.file_system.clone(),
            is_removable: self.is_removable,
        }
    }
}

/// The drives of a vector as mathematical values, in order.
pub open spec fn drive_views(v: Seq<DriveInfo>) -> Seq<DriveInfoView> {
    v.map_values(|d: DriveInfo| d@)
}

/// Some drive of the listing is mounted at exactly `mount_point`.
pub open spec fn mounted_at(drives: Seq<DriveInfoView>, mount_point: Seq<char>) -> bool {
    exists|i: int| 0 <= i < drives.len() && (#[trigger] drives[i]).mount_point == mount_point
}

/// The first drive of the listing whose name contains `label`, case ignored.
pub open spec fn find_by_label(drives: Seq<DriveInfoView>, label: Seq<char>) -> Option<
    DriveInfoView,
>
    decreases drives.len(),
{
    if drives.len() == 0 {
        None
    } else if contains_ignoring_case(drives[0].name, label) {
        Some(drives[0])
    } else {
        find_by_label(drives.drop_first(), label)
    }
}

/// The first drive of the listing under whose mount point `path` lies.
pub open spec fn find_for_path(drives: Seq<DriveInfoView>, path: Seq<char>) -> Option<
    DriveInfoView,
>
    decreases drives.len(),
{
    if drives.len() == 0 {
        None
    } else if path_under(path, drives[0].mount_point) {
        Some(drives[0])
    } else {
        find_for_path(drives.drop_first(), path)
    }
}

/// The removable drives of the listing, in order.
pub open spec fn removable(drives: Seq<DriveInfoView>) -> Seq<DriveInfoView>
    decreases drives.len(),
{
    if drives.len() == 0 {
        drives
    } else if drives.last().is_removable {
        removable(drives.drop_last()).push(drives.last())
    } else {
        removable(drives.drop_last())
    }
}

/// The drives of a later listing that are mounted where no drive of the
/// earlier listing is, in order.
pub open spec fn newly_mounted(earlier: Seq<DriveInfoView>, later: Seq<DriveInfoView>) -> Seq<
    DriveInfoView,
>
    decreases later.len(),
{
    if later.len() == 0 {
        later
    } else if !mounted_at(earlier, later.last().mount_point) {
        newly_mounted(earlier, later.drop_last()).push(later.last())
    } else {
        newly_mounted(earlier, later.drop_last())
    }
}

/// One listing of the connected drives, in the order of the inventory.
pub struct DriveDetector {
    drives: Vec<DriveInfo>,
}

impl View for DriveDetector {
    type V = Seq<DriveInfoView>;

    closed spec fn view(&self) -> Seq<DriveInfoView> {
        drive_views(self.drives@)
    }
}

impl DriveDetector {
    /// Holds the listing `drives`.
    pub fn new(drives: Vec<DriveInfo>) -> (d: DriveDetector)
        ensures
            d@ == drive_views(drives@),
    {
        DriveDetector { drives }
    }

    /// Replaces the listing by a later one.
    pub fn refresh(&mut self, drives: Vec<DriveInfo>)
        ensures
            final(self)@ == drive_views(drives@),
    {
        self.drives = drives;
    }

    /// The drives of the listing, in order.
    pub fn get_all_drives(&self) -> (out: Vec<DriveInfo>)
        ensures
            drive_views(out@) == self@,
    {
        let n: usize = self.drives.len();
        let mut out: Vec<DriveInfo> = Vec::new();
        let mut i: usize = 0;
        while i < n
            invariant
                n == self.drives@.len(),
                i <= n,
                drive_views(out@) == self@.subrange(0, i as int),
            decreases n - i,
        {
            let ghost before = drive_views(out@);
            out.push(self.drives[i].clone());
            assert(drive_views(out@) =~= before.push(self@[i as int]));
            i += 1;
            assert(drive_views(out@) =~= self@.subrange(0, i as int));
        }
        assert(drive_views(out@) =~= self@);
        out
    }

    /// The removable drives of the listing, in order.
    pub fn get_removable_drives(&self) -> (out: Vec<DriveInfo>)
        ensures
            drive_views(out@) == removable(self@),
    {
        let n: usize = self.drives.len();
        let mut out: Vec<DriveInfo> = Vec::new();
        let mut i: usize = 0;
        assert(self@.subrange(0, 0) =~= Seq::<DriveInfoView>::empty());
        while i < n
            invariant
                n == self.drives@.len(),
                i <= n,
                drive_views(out@) == removable(self@.subrange(0, i as int)),
            decreases n - i,
        {
            let ghost before = drive_views(out@);
            assert(self@.subrange(0, i + 1).drop_last() =~= self@.subrange(0, i as int));
            if self.drives[i].is_removable {
                out.push(self.drives[i].clone());
                assert(drive_views(out@) =~= before.push(self@[i as int]));
            }
            i += 1;
        }
        assert(self@.subrange(0, n as int) =~= self@);
        out
    }

    /// Whether a drive is mounted at exactly `mount_point`.
    pub fn is_drive_connected(&self, mount_point: &str) -> (r: bool)
        ensures
            r == mounted_at(self@, mount_point@),
    {
        let n: usize = self.drives.len();
        let mut i: usize = 0;
        while i < n
            invariant
                n == self.drives@.len(),
                i <= n,
                forall|j: int| 0 <= j < i ==> (#[trigger] self@[j]).mount_point != mount_point@,
            decreases n - i,
        {
            if str_eq(self.drives[i].mount_point.as_str(), mount_point) {
                assert(self@[i as int].mount_point == mount_point@);
                return true;
            }
            i += 1;
        }
        false
    }

    /// The first drive whose name contains `label`, case ignored.
    pub fn find_drive_by_label(&self, label: &str) -> (r: Option<DriveInfo>)
        ensures
            match r {
                Some(d) => find_by_label(self@, label@) == Some(d@),
                None => find_by_label(self@, label@) is None,
            },
    {
        let n: usize = self.drives.len();
        let mut i: usize = 0;
        assert(self@.subrange(0, n as int) =~= self@);
        while i < n
            invariant
                n == self.drives@.len(),
                i <= n,
                find_by_label(self@, label@) == find_by_label(
                    self@.subrange(i as int, n as int),
                    label@,
                ),
            decreases n - i,
        {
            let ghost rest = self@.subrange(i as int, n as int);
            assert(rest[0] == self@[i as int]);
            assert(rest.drop_first() =~= self@.subrange(i + 1, n as int));
            if contains_ignore_case(self.drives[i].name.as_str(), label) {
                return Some(self.drives[i].clone());
            }
            i += 1;
        }
        None
    }

    /// The first drive under whose mount point `path` lies.
    pub fn get_drive_for_path(&self, path: &str) -> (r: Option<DriveInfo>)
        ensures
            match r {
                Some(d) => find_for_path(self@, path@) == Some(d@),
                None => find_for_path(self@, path@) is None,
            },
    {
        let n: usize = self.drives.len();
        let mut i: usize = 0;
        assert(self@.subrange(0, n as int) =~= self@);
        while i < n
            invariant
                n == self.drives@.len(),
                i <= n,
                find_for_path(self@, path@) == find_for_path(
                    self@.subrange(i as int, n as int),
                    path@,
                ),
            decreases n - i,
        {
            let ghost rest = self@.subrange(i as int, n as int);
            assert(rest[0] == self@[i as int]);
            assert(rest.drop_first() =~= self@.subrange(i + 1, n as int));
            if is_under(path, self.drives[i].mount_point.as_str()) {
                return Some(self.drives[i].clone());
            }
            i += 1;
        }
        None
    }

    /// The drives of this listing that are mounted where no drive of the
    /// `earlier` listing is, in order.
    pub fn new_drives_since(&self, earlier: &DriveDetector) -> (out: Vec<DriveInfo>)
        ensures
            drive_views(out@) == newly_mounted(earlier@, self@),
    {
        let n: usize = self.drives.len();
        let mut out: Vec<DriveInfo> = Vec::new();
        let mut i: usize = 0;
        assert(self@.subrange(0, 0) =~= Seq::<DriveInfoView>::empty());
        while i < n
            invariant
                n == self.drives@.len(),
                i <= n,
                drive_views(out@) == newly_mounted(earlier@, self@.subrange(0, i as int)),
            decreases n - i,
        {
            let ghost before = drive_views(out@);
            assert(self@.subrange(0, i + 1).drop_last() =~= self@.subrange(0, i as int));
            if !earlier.is_drive_connected(self.drives[i].mount_point.as_str()) {
                out.push(self.drives[i].clone());
                assert(drive_views(out@) =~= before.push(self@[i as int]));
            }
            i += 1;
        }
        assert(self@.subrange(0, n as int) =~= self@);
        out
    }
}

} // verus!
