//! Per-worktree containerized development environments ("workspaces").
//!
//! A workspace pairs a git worktree with a set of engine-managed containers.
//! The core of the crate is a reconciler that merges container-engine state,
//! on-disk worktrees and port-forward sidecars into one consistent view per
//! workspace, and a task runner that executes lifecycle actions singly or in
//! batches with deterministic failure surfacing. All state-merging and
//! decision logic is verified; process, terminal and engine I/O is performed
//! by callers, which hand plain values in and out.

pub mod cli;
mod complete;
mod config;
mod devcontainer;
mod docker;
mod errors;
mod model;
mod portmap;
mod pty;
mod reconcile;
mod runner;
mod slug;
mod status;
mod strutil;
mod table;
mod worktree;

pub use model::{ContainerInfo, ContainerInfoV, ExecSession, ExecSessionV, Speed, Stats, Workspace, WorkspaceV, WorktreeEntry, WorktreeEntryV};
pub use portmap::{all_digits, dec_val, digit_val, first_colon, is_digit, parse_u16, spec_parse_portmap, spec_parse_u16, PortMap};
pub use slug::{basename, basename_of, compose_project_name, is_slug_char, last_slash, lemma_filter_slug_ok, lower_of, slug_char_ok, spec_filter_slug, spec_slug};
pub use reconcile::{find_group, lemma_find_group, lemma_lookup_idx, groups_distinct, lemma_reconcile_idempotent, lemma_reconcile_paths_distinct, lemma_workspace_status_is_max, group_execs, group_stats, in_scope, lookup_dirty, lookup_stats, project_of, reconcile, spec_add_container, spec_add_worktree, spec_dirty, spec_group_execs, spec_group_stats, spec_groups_of, spec_lookup, spec_lookup_idx, spec_merge_worktrees, spec_present_stats, spec_reconcile, spec_sat_add, spec_scope_filter, spec_sum_cpu, spec_sum_ram, spec_workspace_of, Group, GroupV};
pub use runner::{first_error, first_err_idx, label_color, lemma_first_err_idx, spec_label_color, Runnable, Runner, Token};
pub use status::{lemma_status_max_is_max, rank, spec_status_max, spec_status_max2, Status};
pub use devcontainer::{choose_exec_cmd, container_lifecycle_sequence, spec_exec_cmd, spec_lifecycle_sequence, spec_lifecycle_step, CmdV, LifecycleCommandV, cmd_wf, docker_exec_args, spec_cmd_args, spec_cmd_text, spec_docker_exec_args, spec_env_arg, spec_env_args, spec_workspace_dir, BuildOptions, Cmd, Common, Compose, ComposeShutdownAction, Customizations, DcOptions, DevContainer, Dockerfile, GpuOptional, GpuRequirement, HostRequirements, Image, Kind, LifecycleCommand, Mount, MountEntry, MountType, NonComposeProperties, NonComposeShutdownAction, OnAutoForward, Port, PortAttributes, Protocol, UserEnvProbe, WaitFor};
pub use docker::{compute_cpu_percent, container_from_parts, exec_session_from_parts, group_forwarded_ports, sort_dedup_ports, spec_add_port, spec_cpu_percent, spec_folder_label, spec_group_ports, spec_project_label, strictly_sorted};
pub use cli::{choose_host_port, cleanup_plan, compose_base_args, compose_ps_tail, compose_up_tail, copy_volume_plan, find_workspace, is_trim_char, join_ports, kill_plan, lemma_find_ws_path, override_filename, override_labels, parse_container_id, partition_prune, port_conflict, sidecar_plan, spec_compose_base_args, spec_compose_down_args, spec_compose_file_args, spec_compose_ps_tail, spec_compose_up_tail, spec_find_ws_path, spec_has_service, spec_joined_ports, spec_override_labels, spec_port_conflict, spec_prune_class, spec_prune_indices, spec_prune_orphans, spec_trim, spec_trim_end, spec_trim_start, spec_up_services, spec_worktree_remove_args, trim, volume_name, CleanupPlan, CopyVolumePlan, KillPlan, PrunePartition, SidecarPlan, exec_target, lemma_find_ws, pick_workspace, pick_workspace_any, retain_running, spec_find_ws, spec_picked_idx, spec_running, go_line, Cli, Commands, Destroy, Exec, Fwd, Go, Kill, List, Ports, Prune, Show, ShowCommands, ShowWorkspace, State, Up};
pub use complete::{filter_candidates, first_tab, has_nul, is_completion_candidate, parse_completions, quoted_of, shell_function, spec_candidates, spec_completion_of_line, spec_completions, spec_fish_wrapper, spec_posix_wrapper, try_quote, ShellKind};
pub use config::{is_root, resolve_name, spec_apply_overrides, spec_project_idx, Config, Project, ProjectOptions};
pub use errors::{spec_message, Error};
pub use pty::{pty_read_is_stream_end, subprocess_result};
pub use table::{picker_items, spec_compact_rows, spec_execs_joined, spec_header_row, spec_rows_cat, spec_ws_row_compact, spec_ws_rows, workspace_table, ws_row_compact, ws_rows, format_age, format_bytes, format_cpu, format_exec, rendered_table, row_cells, spec_format_age, spec_format_bytes, spec_format_cpu, spec_format_exec, spec_join_tail, spec_layout_cols, spec_status_str, spec_table_layout, spec_ws_cpu, spec_ws_mem, spec_ws_name, table_cols, table_rows, table_spec, ws_fields, WsFields};
pub use worktree::{create_plan, dirty_from_status, list_sync, spec_under_dir, spec_valid_name, spec_worktree_paths, spec_worktree_paths_of_lines, valid_name, worktrees_under, CreatePlan};
pub use strutil::{concat_str, dec_rep, dec_rep_i64, first_nl, has_prefix, i64_string, nl_free, spec_has_prefix, spec_lines, split_lines, str_eq, u64_string};
