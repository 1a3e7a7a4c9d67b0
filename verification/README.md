# vmm_config

The configuration layer of a virtual machine monitor, verified with Verus:
the command-line grammar of every device and component, the checks of
migration and restore parameters, the file descriptors handed to a VM from
outside and how they are matched to its devices, and the Landlock rules that
a configuration asks for.

## Layout

- `src/` is the verified library.
  - `text`, `option_parser`, `values`: the `key=value,...` option grammar,
    its lists, tuples, sizes and numbers, each parser with an exact
    specification.
  - `vm_config/`: one module per component (CPUs, memory, net, disks,
    consoles, payload, platform, ...), each with its `parse` and its
    model; `landlock` lists the rules a configuration needs.
  - `api/`: the parameters of migration, restore and other requests.
  - `migration/`: TCP addresses, TLS directories, checked migration
    parameters and snapshot locations.
  - `external_fds`, `fd_update`: descriptors given by target, their
    `SCM_RIGHTS` ingestion and their hand-over to the devices of a VM.
  - `fd_device`, `fd_map`, `fd`, `de_ser`: serializable descriptors and
    maps of them by device.
- `tests/` runs the library on concrete inputs.
- `app/` holds what touches the outside world: reading files and links,
  duplicating and closing descriptors, random MAC addresses, and the serde
  copies of the library's types.
