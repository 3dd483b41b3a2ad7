use std::path::PathBuf;
use tempfile::TempDir;

use deptox::sizer::calculate_dir_size;

struct TestFixture {
    temp_dir: TempDir,
}

impl TestFixture {
    fn new() -> Self {
        Self {
            temp_dir: TempDir::new().expect("Failed to create temp directory"),
        }
    }

    fn path(&self) -> PathBuf {
        self.temp_dir.path().to_path_buf()
    }

    fn create_node_modules(&self, name: &str, file_count: usize, bytes_per_file: usize) -> PathBuf {
        let project_dir = self.temp_dir.path().join(name);
        let node_modules = project_dir.join("node_modules");
        fs_err::create_dir_all(&node_modules).expect("Failed to create node_modules");

        for index in 0..file_count {
            let file_path = node_modules.join(format!("file_{}.txt", index));
            let content = "x".repeat(bytes_per_file);
            fs_err::write(&file_path, content).expect("Failed to write file");
        }

        node_modules
    }

    fn create_nested_structure(&self) -> Vec<PathBuf> {
        let mut node_modules_paths = Vec::new();

        let path = self.create_node_modules("project-a", 5, 1000);
        node_modules_paths.push(path);

        let workspace = self.temp_dir.path().join("workspace");
        fs_err::create_dir_all(&workspace).expect("Failed to create workspace");
        let project_b = workspace.join("project-b").join("node_modules");
        fs_err::create_dir_all(&project_b).expect("Failed to create project-b node_modules");
        fs_err::write(project_b.join("package.json"), "{}").expect("Failed to write file");
        node_modules_paths.push(project_b);

        let deep = self
            .temp_dir
            .path()
            .join("deep")
            .join("nested")
            .join("project-c");
        let project_c = deep.join("node_modules");
        fs_err::create_dir_all(&project_c).expect("Failed to create project-c node_modules");
        for index in 0..3 {
            fs_err::write(
                project_c.join(format!("dep_{}.js", index)),
                "module.exports = {};",
            )
            .expect("Failed to write file");
        }
        node_modules_paths.push(project_c);

        node_modules_paths
    }
}

#[test]
fn test_fixture_creates_temp_directory() {
    let fixture = TestFixture::new();
    assert!(fixture.path().exists());
    assert!(fixture.path().is_dir());
}

#[test]
fn test_create_node_modules() {
    let fixture = TestFixture::new();
    let node_modules = fixture.create_node_modules("my-project", 3, 100);

    assert!(node_modules.exists());
    assert!(node_modules.is_dir());
    assert!(node_modules.ends_with("node_modules"));

    let entries: Vec<_> = fs_err::read_dir(&node_modules).unwrap().collect();
    assert_eq!(entries.len(), 3);
}

#[test]
fn test_create_node_modules_with_correct_size() {
    let fixture = TestFixture::new();
    let node_modules = fixture.create_node_modules("sized-project", 4, 250);

    let size = calculate_dir_size(node_modules.to_str().unwrap());
    assert_eq!(size, 1000);
}

#[test]
fn test_create_nested_structure() {
    let fixture = TestFixture::new();
    let paths = fixture.create_nested_structure();

    assert_eq!(paths.len(), 3);
    for path in &paths {
        assert!(path.exists(), "Path should exist: {:?}", path);
        assert!(path.is_dir());
        assert!(path.ends_with("node_modules"));
    }
}
